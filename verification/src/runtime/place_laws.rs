//! Laws of sections and of the places of threads in them, told in the fields before and after.

use super::section_laws::law_moved_thread_gets_its_place;
use super::section_laws::order_kept;
use super::section_order::is_free_position;
use super::section_order::is_highest;
use super::section_order::is_section_order;
use super::section_order::middle_position;
use super::section_order::move_view;
use super::section_order::moved;
use super::section_order::moving;
use super::section_order::next_position;
use super::section_order::place_of;
use super::section_order::position_after;
use super::section_order::position_between;
use super::section_order::spread_out;
use super::section_order::ByPosition;
use super::section_order::ByThreadId;
use super::section_order::PositionedMembers;
use super::section_order::SectionMoveError;
use super::section_order::SectionMoveErrorView;
use super::section_order::ThreadSectionPlace;
use super::section_order::ThreadsAmong;
use super::section_order::SECTION_POSITION_GAP;
use super::sections::in_section;
use super::sections::section_fetch_size;
use super::sections::section_page_size;
use super::sections::AfterCursor;
use super::sections::BySectionId;
use super::sections::ThreadSectionError;
use super::sections::ThreadSectionsPage;
use super::StateRuntime;
use super::StateRuntimeView;
use crate::table::is_full_listing;
use crate::table::is_listing;
use crate::table::row_selected;
use crate::table::Ranking;
use crate::text::lemma_text_before_total;
use crate::text::text_before;
use crate::thread_id::opt_view;
use crate::thread_id::ThreadId;
use crate::threads::ThreadMetadata;
use crate::threads::ThreadRow;
use crate::threads::ThreadSection;
use crate::threads::ThreadSectionAppearance;
use vstd::prelude::*;

verus! {

/// A section is created as given, and only where there is none with its identifier. Threads stay as they
/// are.
pub proof fn law_section_is_created_once(runtime: &mut StateRuntime, section: ThreadSection, result: Result<ThreadSection, ThreadSectionError>)
    requires
        call_ensures(StateRuntime::create_thread_section, (runtime, section), result),
    ensures
        result is Ok <==> !old(runtime)@.sections.contains_key(section.id@),
        result is Err ==> final(runtime)@ == old(runtime)@,
        final(runtime)@.threads == old(runtime)@.threads,
        result is Ok ==> {
            &&& result->Ok_0 == section
            &&& final(runtime)@.sections.contains_key(section.id@)
            &&& final(runtime)@.sections[section.id@] == section
            &&& forall|other: Seq<char>| other != section.id@ && #[trigger] old(runtime)@.sections.contains_key(other) ==> final(runtime)@.sections[other]
                == old(runtime)@.sections[other]
        },
{
}

/// What is read of a section is what is stored of it.
pub proof fn law_section_is_read_as_stored(runtime: &StateRuntime, id: &str, section: Option<ThreadSection>)
    requires
        call_ensures(StateRuntime::get_thread_section, (runtime, id), section),
    ensures
        section is Some <==> runtime@.sections.contains_key(id@),
        section is Some ==> section->0 == runtime@.sections[id@],
{
}

/// The thread is in the section with that identifier.
pub open spec fn is_within(thread: ThreadMetadata, section: Seq<char>) -> bool {
    thread.section is Some && thread.section->0.id@ == section
}

/// A renamed section has the new name, and the new appearance if one is given; its threads show it at the
/// places they had. All other sections and threads stay as they are.
pub proof fn law_section_is_renamed(
    runtime: &mut StateRuntime,
    id: &str,
    name: &str,
    appearance: Option<Option<ThreadSectionAppearance>>,
    renamed: Option<ThreadSection>,
)
    requires
        call_ensures(StateRuntime::rename_thread_section, (runtime, id, name, appearance), renamed),
    ensures
        renamed is Some <==> old(runtime)@.sections.contains_key(id@),
        renamed is None ==> final(runtime)@ == old(runtime)@,
        renamed is Some ==> {
            &&& final(runtime)@.sections[id@] == renamed->0
            &&& renamed->0.id@ == id@
            &&& renamed->0.name@ == name@
            &&& appearance is Some ==> renamed->0.appearance == appearance->0
            &&& appearance is None ==> renamed->0.appearance == old(runtime)@.sections[id@].appearance
            &&& final(runtime)@.threads.dom() == old(runtime)@.threads.dom()
            &&& forall|other: Seq<char>| other != id@ && #[trigger] old(runtime)@.sections.contains_key(other) ==> final(runtime)@.sections[other]
                == old(runtime)@.sections[other]
            &&& forall|thread: ThreadId| #[trigger]
                old(runtime)@.threads.contains_key(thread) && !is_within(old(runtime)@.threads[thread].metadata, id@) ==> final(runtime)@.threads[thread]
                    == old(runtime)@.threads[thread]
            &&& forall|thread: ThreadId| #[trigger]
                old(runtime)@.threads.contains_key(thread) && is_within(old(runtime)@.threads[thread].metadata, id@) ==> {
                    let before = old(runtime)@.threads[thread].metadata;
                    let after = final(runtime)@.threads[thread].metadata;
                    &&& after.section == renamed
                    &&& after.section_position == before.section_position
                    &&& after.section_entered_at == before.section_entered_at
                    &&& after.title == before.title
                    &&& after.updated_at == before.updated_at
                }
        },
{
    if renamed is Some {
        assert(final(runtime)@.threads.dom() =~= old(runtime)@.threads.dom());
    }
}

/// A deleted section is gone, and its threads are in none. All other sections and threads stay as they are.
pub proof fn law_section_is_deleted(runtime: &mut StateRuntime, id: &str, deleted: bool)
    requires
        call_ensures(StateRuntime::delete_thread_section, (runtime, id), deleted),
    ensures
        deleted <==> old(runtime)@.sections.contains_key(id@),
        !final(runtime)@.sections.contains_key(id@),
        final(runtime)@.threads.dom() == old(runtime)@.threads.dom(),
        forall|other: Seq<char>| other != id@ && #[trigger] old(runtime)@.sections.contains_key(other) ==> final(runtime)@.sections.contains_key(other)
            && final(runtime)@.sections[other] == old(runtime)@.sections[other],
        forall|thread: ThreadId| #[trigger]
            old(runtime)@.threads.contains_key(thread) && !is_within(old(runtime)@.threads[thread].metadata, id@) ==> final(runtime)@.threads[thread]
                == old(runtime)@.threads[thread],
        forall|thread: ThreadId| #[trigger]
            old(runtime)@.threads.contains_key(thread) && is_within(old(runtime)@.threads[thread].metadata, id@) ==> {
                let after = final(runtime)@.threads[thread].metadata;
                &&& after.section is None
                &&& after.section_position is None
                &&& after.section_entered_at is None
                &&& after.id == old(runtime)@.threads[thread].metadata.id
                &&& after.title == old(runtime)@.threads[thread].metadata.title
                &&& after.updated_at == old(runtime)@.threads[thread].metadata.updated_at
            },
{
    assert(final(runtime)@.threads.dom() =~= old(runtime)@.threads.dom());
}

/// A page of sections holds stored sections behind the cursor, in the order of their identifiers, and no more
/// than the limit; a limit of none counts as one. Where more follow it is full and names its last section. A
/// section behind the cursor that is not on the page is behind all that are.
pub proof fn law_sections_are_listed_in_order(runtime: &StateRuntime, cursor: Option<&str>, limit: usize, page: ThreadSectionsPage)
    requires
        call_ensures(StateRuntime::list_thread_sections, (runtime, cursor, limit), Ok::<ThreadSectionsPage, ThreadSectionError>(page)),
        runtime@.keyed(),
    ensures
        limit > 0 ==> page.sections@.len() <= limit,
        limit == 0 ==> page.sections@.len() <= 1,
        forall|i: int|
            #![trigger page.sections@[i]]
            0 <= i < page.sections@.len() ==> {
                &&& runtime@.sections.contains_key(page.sections@[i].id@)
                &&& runtime@.sections[page.sections@[i].id@] == page.sections@[i]
                &&& cursor is Some ==> text_before(cursor->0@, page.sections@[i].id@)
            },
        forall|i: int, j: int|
            #![trigger page.sections@[i], page.sections@[j]]
            0 <= i < j < page.sections@.len() ==> text_before(page.sections@[i].id@, page.sections@[j].id@),
        page.next_cursor is Some ==> page.sections@.len() > 0 && page.next_cursor->0@ == page.sections@[page.sections@.len() - 1].id@ && (limit > 0 ==> page.sections@.len()
            == limit),
        forall|id: Seq<char>| #[trigger]
            runtime@.sections.contains_key(id) && (cursor is Some ==> text_before(cursor->0@, id)) ==> {
                ||| exists|i: int| 0 <= i < page.sections@.len() && (#[trigger] page.sections@[i]).id@ == id
                ||| forall|i: int| 0 <= i < page.sections@.len() ==> text_before((#[trigger] page.sections@[i]).id@, id)
            },
{
    let size = section_page_size(limit);
    let condition = AfterCursor { cursor };
    let ranking = BySectionId {  };
    let fetched = choose|fetched: Seq<ThreadSection>| {
        &&& #[trigger] is_listing::<ThreadSection, AfterCursor, BySectionId>(runtime@.sections, condition, ranking, section_fetch_size(limit), fetched)
        &&& if fetched.len() > size {
            &&& page.sections@ == fetched.take(size as int)
            &&& opt_view(page.next_cursor) == Some(fetched[size - 1].id@)
        } else {
            &&& page.sections@ == fetched
            &&& page.next_cursor is None
        }
    };
    assert forall|i: int| #![trigger page.sections@[i]] 0 <= i < page.sections@.len() implies page.sections@[i] == fetched[i] && runtime@.sections.contains_key(
        page.sections@[i].id@,
    ) && runtime@.sections[page.sections@[i].id@] == page.sections@[i] && (cursor is Some ==> text_before(cursor->0@, page.sections@[i].id@)) by {
        assert(row_selected::<ThreadSection, AfterCursor>(runtime@.sections, condition, fetched[i]));
    }
    assert forall|i: int, j: int| #![trigger page.sections@[i], page.sections@[j]] 0 <= i < j < page.sections@.len() implies text_before(
        page.sections@[i].id@,
        page.sections@[j].id@,
    ) by {
        lemma_in_order(runtime@, condition, section_fetch_size(limit), fetched, i, j);
    }
    assert forall|id: Seq<char>| #[trigger] runtime@.sections.contains_key(id) && (cursor is Some ==> text_before(cursor->0@, id)) implies {
        ||| exists|i: int| 0 <= i < page.sections@.len() && (#[trigger] page.sections@[i]).id@ == id
        ||| forall|i: int| 0 <= i < page.sections@.len() ==> text_before((#[trigger] page.sections@[i]).id@, id)
    } by {
        let section = runtime@.sections[id];
        assert(row_selected::<ThreadSection, AfterCursor>(runtime@.sections, condition, section));
        if fetched.contains(section) {
            let k = choose|k: int| 0 <= k < fetched.len() && fetched[k] == section;
            if k < page.sections@.len() {
                assert(page.sections@[k].id@ == id);
            } else {
                assert forall|i: int| 0 <= i < page.sections@.len() implies text_before((#[trigger] page.sections@[i]).id@, id) by {
                    lemma_in_order(runtime@, condition, section_fetch_size(limit), fetched, i, k);
                }
            }
        } else {
            assert forall|i: int| 0 <= i < page.sections@.len() implies text_before((#[trigger] page.sections@[i]).id@, id) by {
                assert(page.sections@[i] == fetched[i]);
                assert(row_selected::<ThreadSection, AfterCursor>(runtime@.sections, condition, fetched[i]));
                assert(!Ranking::<ThreadSection>::before(&ranking, section, fetched[i]));
                if fetched[i].id@ == id {
                    assert(fetched[i] == section);
                    assert(fetched.contains(section));
                }
                lemma_text_before_total(fetched[i].id@, id);
            }
        }
    }
}

proof fn lemma_in_order(state: StateRuntimeView, condition: AfterCursor, limit: nat, fetched: Seq<ThreadSection>, i: int, j: int)
    requires
        is_listing::<ThreadSection, AfterCursor, BySectionId>(state.sections, condition, BySectionId {  }, limit, fetched),
        0 <= i < j < fetched.len(),
    ensures
        text_before(fetched[i].id@, fetched[j].id@),
{
    assert(!Ranking::<ThreadSection>::before(&BySectionId {  }, fetched[j], fetched[i]));
    assert(<ThreadSection as crate::table::Row>::key_of(fetched[i]) != <ThreadSection as crate::table::Row>::key_of(fetched[j]));
    lemma_text_before_total(fetched[i].id@, fetched[j].id@);
}

/// The places told of threads are those that they have, one for each given thread that exists.
pub proof fn law_places_are_told(runtime: &StateRuntime, ids: &[ThreadId], places: Vec<ThreadSectionPlace>)
    requires
        call_ensures(StateRuntime::get_thread_section_ordering, (runtime, ids), places),
        runtime@.keyed(),
    ensures
        forall|i: int|
            #![trigger places@[i]]
            0 <= i < places@.len() ==> {
                let id = places@[i].thread_id;
                &&& ids@.contains(id)
                &&& runtime@.threads.contains_key(id)
                &&& places@[i].position == runtime@.threads[id].metadata.section_position
                &&& places@[i].entered_at == runtime@.threads[id].metadata.section_entered_at
            },
        forall|id: ThreadId| #[trigger] runtime@.threads.contains_key(id) && ids@.contains(id) ==> exists|i: int| 0 <= i < places@.len() && (#[trigger] places@[i]).thread_id == id,
        forall|i: int, j: int| #![trigger places@[i], places@[j]] 0 <= i < j < places@.len() ==> places@[i].thread_id.value < places@[j].thread_id.value,
{
    let condition = ThreadsAmong { ids };
    let listed = choose|listed: Seq<ThreadRow>| {
        &&& #[trigger] is_full_listing::<ThreadRow, ThreadsAmong, ByThreadId>(runtime@.threads, condition, ByThreadId {  }, listed)
        &&& places@ == listed.map_values(|row: ThreadRow| place_of(row))
    };
    assert forall|i: int| #![trigger places@[i]] 0 <= i < places@.len() implies places@[i] == place_of(listed[i]) && ids@.contains(places@[i].thread_id)
        && runtime@.threads.contains_key(places@[i].thread_id) && runtime@.threads[places@[i].thread_id] == listed[i] by {
        assert(row_selected::<ThreadRow, ThreadsAmong>(runtime@.threads, condition, listed[i]));
    }
    assert forall|id: ThreadId| #[trigger] runtime@.threads.contains_key(id) && ids@.contains(id) implies exists|i: int|
        0 <= i < places@.len() && (#[trigger] places@[i]).thread_id == id by {
        let row = runtime@.threads[id];
        assert(row_selected::<ThreadRow, ThreadsAmong>(runtime@.threads, condition, row));
        let i = choose|i: int| 0 <= i < listed.len() && listed[i] == row;
        assert(places@[i].thread_id == id);
    }
    assert forall|i: int, j: int| #![trigger places@[i], places@[j]] 0 <= i < j < places@.len() implies places@[i].thread_id.value < places@[j].thread_id.value by {
        assert(!Ranking::<ThreadRow>::before(&ByThreadId {  }, listed[j], listed[i]));
        assert(<ThreadRow as crate::table::Row>::key_of(listed[i]) != <ThreadRow as crate::table::Row>::key_of(listed[j]));
        assert(places@[i] == place_of(listed[i]) && places@[j] == place_of(listed[j]));
    }
}

/// A thread that is moved out of its section is in none. It keeps everything else, and no other thread
/// changes. Nothing happens to a thread that is not there.
pub proof fn law_thread_leaves_its_section(runtime: &mut StateRuntime, id: ThreadId, before: Option<ThreadId>, now: i64, result: Result<bool, SectionMoveError>)
    requires
        call_ensures(StateRuntime::move_thread_to_section_at, (runtime, id, None, before, now), result),
    ensures
        result is Ok,
        result->Ok_0 <==> old(runtime)@.threads.contains_key(id),
        !result->Ok_0 ==> final(runtime)@ == old(runtime)@,
        result->Ok_0 ==> {
            let stored = old(runtime)@.threads[id];
            let after = final(runtime)@.threads[id];
            &&& after.metadata.section is None
            &&& after.metadata.section_position is None
            &&& after.metadata.section_entered_at is None
            &&& after.metadata.id == stored.metadata.id
            &&& after.metadata.title == stored.metadata.title
            &&& after.metadata.updated_at == stored.metadata.updated_at
            &&& after.memory_mode == stored.memory_mode
        },
        forall|other: ThreadId| other != id && #[trigger] old(runtime)@.threads.contains_key(other) ==> final(runtime)@.threads.contains_key(other)
            && final(runtime)@.threads[other] == old(runtime)@.threads[other],
        final(runtime)@.sections == old(runtime)@.sections,
{
}

/// A move into a section fails where the section does not exist, where the thread should stand before itself,
/// or before a thread that has no place there. Nothing changes then.
pub proof fn law_refused_move(
    runtime: &mut StateRuntime,
    id: ThreadId,
    section: &str,
    before: Option<ThreadId>,
    now: i64,
    result: Result<bool, SectionMoveError>,
)
    requires
        call_ensures(StateRuntime::move_thread_to_section_at, (runtime, id, Some(section), before, now), result),
    ensures
        result != Ok::<bool, SectionMoveError>(true) ==> final(runtime)@ == old(runtime)@,
        !old(runtime)@.threads.contains_key(id) ==> result == Ok::<bool, SectionMoveError>(false),
        old(runtime)@.threads.contains_key(id) && !old(runtime)@.sections.contains_key(section@) ==> result is Err && result->Err_0@ == SectionMoveErrorView::NoSection(section@),
        old(runtime)@.threads.contains_key(id) && old(runtime)@.sections.contains_key(section@) && before == Some(id) ==> result is Err && result->Err_0@
            == SectionMoveErrorView::BeforeItself(id),
        old(runtime)@.threads.contains_key(id) && old(runtime)@.sections.contains_key(section@) && before is Some && before->0 != id && !(old(runtime)@.threads.contains_key(
            before->0,
        ) && is_within(old(runtime)@.threads[before->0].metadata, section@) && old(runtime)@.threads[before->0].metadata.section_position is Some) ==> result is Err
            && result->Err_0@ == (SectionMoveErrorView::BeforeElsewhere { before: before->0, section: section@ }),
{
    assert(moving(old(runtime)@, id, Some(section), before, now, final(runtime)@, move_view(result)));
}

/// `a` stands before `b` in a section: at a smaller position or, at the same one, with the smaller
/// identifier; threads without a position stand last.
pub open spec fn stands_before(a: ThreadMetadata, b: ThreadMetadata) -> bool {
    match (a.section_position, b.section_position) {
        (Some(x), Some(y)) => x < y || x == y && a.id.value < b.id.value,
        (Some(_), None) => true,
        (None, Some(_)) => false,
        (None, None) => a.id.value < b.id.value,
    }
}

/// A thread that is moved into a section stands directly before the given thread, or behind all others that
/// have a place. It entered the section at the time of the move, unless it was there before. The others of
/// the section keep their order, and nothing but the positions there changes.
pub proof fn law_thread_is_moved_to_its_place(
    runtime: &mut StateRuntime,
    id: ThreadId,
    section: &str,
    before: Option<ThreadId>,
    now: i64,
)
    requires
        call_ensures(StateRuntime::move_thread_to_section_at, (runtime, id, Some(section), before, now), Ok::<bool, SectionMoveError>(true)),
        old(runtime)@.keyed(),
    ensures
        ({
            let threads = old(runtime)@.threads;
            let after = final(runtime)@.threads;
            let thread = after[id].metadata;
            let others = |other: ThreadId| after.contains_key(other) && other != id && is_within(after[other].metadata, section@) && after[other].metadata.section_position is Some;
            &&& is_within(thread, section@)
            &&& thread.section_position is Some
            &&& !is_within(threads[id].metadata, section@) ==> thread.section_entered_at == Some(now)
            &&& is_within(threads[id].metadata, section@) ==> thread.section_entered_at == threads[id].metadata.section_entered_at
            &&& thread.title == threads[id].metadata.title
            &&& thread.updated_at == threads[id].metadata.updated_at
            &&& before is Some ==> {
                &&& after[before->0].metadata.section_position is Some
                &&& thread.section_position->0 < after[before->0].metadata.section_position->0
                &&& forall|other: ThreadId| #[trigger]
                    others(other) ==> after[other].metadata.section_position->0 < thread.section_position->0 || after[other].metadata.section_position->0
                        >= after[before->0].metadata.section_position->0
            }
            &&& before is None ==> forall|other: ThreadId| #[trigger] others(other) ==> after[other].metadata.section_position->0 < thread.section_position->0
            &&& after.dom() == threads.dom()
            &&& forall|other: ThreadId| #[trigger]
                threads.contains_key(other) && other != id && !is_within(threads[other].metadata, section@) ==> after[other] == threads[other]
            &&& forall|other: ThreadId| #[trigger]
                threads.contains_key(other) && other != id ==> {
                    &&& after[other].metadata.id == other
                    &&& after[other].metadata.section == threads[other].metadata.section
                    &&& after[other].metadata.section_entered_at == threads[other].metadata.section_entered_at
                    &&& after[other].metadata.title == threads[other].metadata.title
                    &&& after[other].memory_mode == threads[other].memory_mode
                }
            &&& forall|a: ThreadId, b: ThreadId|
                #![trigger threads.contains_key(a), threads.contains_key(b)]
                threads.contains_key(a) && threads.contains_key(b) && a != id && b != id && is_within(threads[a].metadata, section@) && is_within(
                    threads[b].metadata,
                    section@,
                ) ==> (stands_before(threads[a].metadata, threads[b].metadata) <==> stands_before(after[a].metadata, after[b].metadata))
            &&& final(runtime)@.sections == old(runtime)@.sections
        }),
{
    let state = old(runtime)@;
    let result = final(runtime)@;
    assert(moving(state, id, Some(section), before, now, result, Ok::<bool, SectionMoveErrorView>(true))) by {
        assert(move_view(Ok::<bool, SectionMoveError>(true)) == Ok::<bool, SectionMoveErrorView>(true));
    }
    law_moved_thread_gets_its_place(state, id, section, before, now, result);
    let threads = state.threads;
    let after = result.threads;
    let rest = choose|rest: Map<ThreadId, ThreadRow>| #[trigger] order_kept(threads, rest, section@, id) && after == rest.insert(id, after[id]);
    assert(after.dom() =~= threads.dom());
    assert forall|a: ThreadId, b: ThreadId|
        #![trigger threads.contains_key(a), threads.contains_key(b)]
        threads.contains_key(a) && threads.contains_key(b) && a != id && b != id && is_within(threads[a].metadata, section@) && is_within(
            threads[b].metadata,
            section@,
        ) implies (stands_before(threads[a].metadata, threads[b].metadata) <==> stands_before(after[a].metadata, after[b].metadata)) by {
        assert(Ranking::<ThreadRow>::before(&ByPosition {  }, threads[a], threads[b]) == Ranking::<ThreadRow>::before(&ByPosition {  }, rest[a], rest[b]));
        assert(rest.contains_key(a) && rest.contains_key(b));
        assert(after[a] == rest[a] && after[b] == rest[b]);
        assert(threads[a].metadata.id == a && rest[a].metadata.id == a);
        assert(threads[b].metadata.id == b && rest[b].metadata.id == b);
    }
    assert forall|other: ThreadId| #[trigger] threads.contains_key(other) && other != id implies after[other] == rest[other] && rest[other].metadata.id == other by {
        assert(rest.contains_key(other));
    }
    lemma_moved_metadata(runtime, id, section, before, now);
}

proof fn lemma_moved_metadata(runtime: &mut StateRuntime, id: ThreadId, section: &str, before: Option<ThreadId>, now: i64)
    requires
        call_ensures(StateRuntime::move_thread_to_section_at, (runtime, id, Some(section), before, now), Ok::<bool, SectionMoveError>(true)),
        old(runtime)@.keyed(),
    ensures
        final(runtime)@.threads[id].metadata.title == old(runtime)@.threads[id].metadata.title,
        final(runtime)@.threads[id].metadata.updated_at == old(runtime)@.threads[id].metadata.updated_at,
{
    let state = old(runtime)@;
    let result = final(runtime)@;
    assert(moving(state, id, Some(section), before, now, result, Ok::<bool, SectionMoveErrorView>(true))) by {
        assert(move_view(Ok::<bool, SectionMoveError>(true)) == Ok::<bool, SectionMoveErrorView>(true));
    }
    super::section_laws::lemma_moved_thread_is_placed(state, id, section, before, now, result);
}

/// The other thread has a place in the section, below `bound` if there is one.
pub open spec fn has_place_below(threads: Map<ThreadId, ThreadRow>, section: Seq<char>, id: ThreadId, bound: Option<i64>, other: ThreadId) -> bool {
    &&& threads.contains_key(other)
    &&& other != id
    &&& is_within(threads[other].metadata, section)
    &&& threads[other].metadata.section_position is Some
    &&& bound is Some ==> threads[other].metadata.section_position->0 < bound->0
}

/// The highest position of the others in the section below `bound`, or none where there are none.
pub open spec fn is_highest_place(threads: Map<ThreadId, ThreadRow>, section: Seq<char>, id: ThreadId, bound: Option<i64>, highest: Option<i64>) -> bool {
    &&& highest is Some ==> exists|other: ThreadId| #[trigger]
        has_place_below(threads, section, id, bound, other) && threads[other].metadata.section_position == highest
    &&& highest is Some ==> forall|other: ThreadId| #[trigger]
        has_place_below(threads, section, id, bound, other) ==> threads[other].metadata.section_position->0 <= highest->0
    &&& highest is None ==> forall|other: ThreadId| !#[trigger] has_place_below(threads, section, id, bound, other)
}

proof fn lemma_highest_place(threads: Map<ThreadId, ThreadRow>, section: &str, id: ThreadId, bound: Option<i64>, highest: Option<i64>, found: Option<i64>)
    requires
        forall|other: ThreadId| #[trigger] threads.contains_key(other) ==> threads[other].metadata.id == other,
        is_highest_place(threads, section@, id, bound, highest),
        is_highest(threads, PositionedMembers { section, excluded: id, bound }, found),
    ensures
        found == highest,
{
    let condition = PositionedMembers { section, excluded: id, bound };
    assert forall|other: ThreadId| #[trigger] has_place_below(threads, section@, id, bound, other) implies row_selected::<ThreadRow, PositionedMembers>(
        threads,
        condition,
        threads[other],
    ) by {}
    assert forall|row: ThreadRow| #[trigger] row_selected::<ThreadRow, PositionedMembers>(threads, condition, row) implies has_place_below(
        threads,
        section@,
        id,
        bound,
        row.metadata.id,
    ) && threads[row.metadata.id] == row by {}
    if found is Some {
        let row = choose|row: ThreadRow| #[trigger]
            row_selected::<ThreadRow, PositionedMembers>(threads, condition, row) && row.metadata.section_position == found;
        assert(has_place_below(threads, section@, id, bound, row.metadata.id));
        if highest is Some {
            let other = choose|other: ThreadId| #[trigger]
                has_place_below(threads, section@, id, bound, other) && threads[other].metadata.section_position == highest;
            assert(row_selected::<ThreadRow, PositionedMembers>(threads, condition, threads[other]));
        }
    } else if highest is Some {
        let other = choose|other: ThreadId| #[trigger]
            has_place_below(threads, section@, id, bound, other) && threads[other].metadata.section_position == highest;
        assert(row_selected::<ThreadRow, PositionedMembers>(threads, condition, threads[other]));
    }
}

/// A new place lies in the middle of the gap in front of another, if that has room, or a million behind the
/// last one.
pub proof fn law_new_places(lower: Option<i64>, upper: i64, middle: Option<i64>, behind: Option<i64>)
    requires
        call_ensures(middle_position, (lower, upper), middle),
        call_ensures(next_position, (lower,), behind),
    ensures
        ({
            let start = if lower is Some {
                lower->0 as int
            } else {
                0
            };
            &&& middle is Some <==> upper - start > 1
            &&& middle is Some ==> start < middle->0 < upper && middle->0 - start <= upper - middle->0 <= middle->0 - start + 1
            &&& behind is Some <==> start + 1_000_000 <= i64::MAX
            &&& behind is Some ==> behind->0 == start + 1_000_000
        }),
{
}

/// A thread that is moved to the end of a section gets a place a million behind the last one there, and one
/// that is moved before another gets the middle of the gap in front of that, while there is room. No other
/// thread changes then.
pub proof fn law_places_leave_room(
    runtime: &mut StateRuntime,
    id: ThreadId,
    section: &str,
    before: Option<ThreadId>,
    now: i64,
    lower: Option<i64>,
)
    requires
        call_ensures(StateRuntime::move_thread_to_section_at, (runtime, id, Some(section), before, now), Ok::<bool, SectionMoveError>(true)),
        old(runtime)@.keyed(),
        is_highest_place(
            old(runtime)@.threads,
            section@,
            id,
            if before is Some {
                old(runtime)@.threads[before->0].metadata.section_position
            } else {
                None
            },
            lower,
        ),
    ensures
        ({
            let threads = old(runtime)@.threads;
            let after = final(runtime)@.threads;
            let start = if lower is Some {
                lower->0 as int
            } else {
                0
            };
            let place = after[id].metadata.section_position;
            let room = if before is Some {
                threads[before->0].metadata.section_position->0 - start > 1
            } else {
                start + 1_000_000 <= i64::MAX
            };
            &&& room ==> place is Some
            &&& room && before is None ==> place->0 == start + 1_000_000
            &&& room && before is Some ==> place->0 == start + (threads[before->0].metadata.section_position->0 - start) / 2
            &&& room ==> forall|other: ThreadId| other != id && #[trigger] threads.contains_key(other) ==> after.contains_key(other) && after[other] == threads[other]
        }),
{
    let state = old(runtime)@;
    let threads = state.threads;
    let after = final(runtime)@.threads;
    let target = state.sections[section@];
    assert(moving(state, id, Some(section), before, now, final(runtime)@, Ok::<bool, SectionMoveErrorView>(true))) by {
        assert(move_view(Ok::<bool, SectionMoveError>(true)) == Ok::<bool, SectionMoveErrorView>(true));
    }
    let found = choose|found: Option<i64>| #[trigger] is_free_position(threads, section, id, before, found) && match found {
        Some(position) => Some(after) == Some(threads.insert(id, moved(threads[id], target, position, now))),
        None => exists|listed: Seq<ThreadRow>| #[trigger] is_section_order(threads, section, id, listed) && {
            let spread = spread_out(threads, listed);
            if listed.len() * SECTION_POSITION_GAP > i64::MAX {
                Some(after) is None
            } else {
                exists|found: Option<i64>| #[trigger] is_free_position(spread, section, id, before, found) && match found {
                    Some(position) => Some(after) == Some(spread.insert(id, moved(spread[id], target, position, now))),
                    None => Some(after) is None,
                }
            }
        },
    };
    if before is Some {
        let upper = threads[before->0].metadata.section_position->0;
        let highest = choose|highest: Option<i64>| #[trigger]
            is_highest(threads, PositionedMembers { section, excluded: id, bound: Some(upper) }, highest) && found == position_between(highest, upper);
        lemma_highest_place(threads, section, id, Some(upper), lower, highest);
    } else {
        let highest = choose|highest: Option<i64>| #[trigger]
            is_highest(threads, PositionedMembers { section, excluded: id, bound: None }, highest) && found == position_after(highest);
        lemma_highest_place(threads, section, id, None, lower, highest);
    }
}

/// A thread is moved at the time of the clock as at a given time.
pub proof fn law_thread_is_moved_now(runtime: &mut StateRuntime, id: ThreadId, section: &str, before: Option<ThreadId>, result: Result<bool, SectionMoveError>)
    requires
        call_ensures(StateRuntime::move_thread_to_section, (runtime, id, Some(section), before), result),
        old(runtime)@.keyed(),
    ensures
        result != Ok::<bool, SectionMoveError>(true) ==> final(runtime)@ == old(runtime)@,
        result == Ok::<bool, SectionMoveError>(true) ==> {
            &&& old(runtime)@.sections.contains_key(section@)
            &&& is_within(final(runtime)@.threads[id].metadata, section@)
            &&& final(runtime)@.threads[id].metadata.section_position is Some
            &&& before is Some ==> final(runtime)@.threads[id].metadata.section_position->0 < final(runtime)@.threads[before->0].metadata.section_position->0
        },
{
    let now = choose|now: i64| #[trigger] moving(old(runtime)@, id, Some(section), before, now, final(runtime)@, move_view(result));
    if result == Ok::<bool, SectionMoveError>(true) {
        law_moved_thread_gets_its_place(old(runtime)@, id, section, before, now, final(runtime)@);
        assert(in_section(final(runtime)@.threads[id], section@));
    }
}

} // verus!
