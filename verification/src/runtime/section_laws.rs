//! Laws of sections and of the order in them.

use super::section_order::is_anchor;
use super::section_order::is_free_position;
use super::section_order::is_highest;
use super::section_order::is_member;
use super::section_order::is_section_move;
use super::section_order::is_section_order;
use super::section_order::lemma_spread_out;
use super::section_order::move_error;
use super::section_order::moved;
use super::section_order::moving;
use super::section_order::position_between;
use super::section_order::repositioned;
use super::section_order::spread_out;
use super::section_order::ByPosition;
use super::section_order::PositionedMembers;
use super::section_order::SectionMembers;
use super::section_order::SectionMoveErrorView;
use super::section_order::SECTION_POSITION_GAP;
use super::sections::in_section;
use super::sections::is_section_page;
use super::sections::placed;
use super::sections::section_fetch_size;
use super::sections::section_page_size;
use super::sections::AfterCursor;
use super::sections::BySectionId;
use super::sections::ThreadSectionsPage;
use super::StateRuntimeView;
use crate::table::countable;
use crate::table::lemma_covers;
use crate::table::is_listing;
use crate::table::row_selected;
use crate::table::Ranking;
use crate::table::Row;
use crate::text::lemma_text_before_asymmetric;
use crate::text::lemma_text_before_total;
use crate::text::text_before;
use crate::thread_id::opt_view;
use crate::thread_id::ThreadId;
use crate::threads::ThreadRow;
use crate::threads::ThreadSection;
use vstd::prelude::*;

verus! {

/// Every row is found under its own key.
pub open spec fn threads_keyed(threads: Map<ThreadId, ThreadRow>) -> bool {
    forall|id: ThreadId| #[trigger] threads.contains_key(id) ==> threads[id].metadata.id == id
}

/// Nothing lies between `position` and the thread `before`.
pub open spec fn lies_in_front(threads: Map<ThreadId, ThreadRow>, section: Seq<char>, thread_id: ThreadId, before: ThreadId, position: i64) -> bool {
    &&& threads[before].metadata.section_position is Some
    &&& position < threads[before].metadata.section_position->0
    &&& forall|id: ThreadId| #[trigger] threads.contains_key(id) && is_member(threads[id], section, thread_id) && threads[id].metadata.section_position is Some ==> {
        ||| threads[id].metadata.section_position->0 < position
        ||| threads[id].metadata.section_position->0 >= threads[before].metadata.section_position->0
    }
}

/// `position` is behind every other position of the section.
pub open spec fn lies_behind(threads: Map<ThreadId, ThreadRow>, section: Seq<char>, thread_id: ThreadId, position: i64) -> bool {
    forall|id: ThreadId| #[trigger] threads.contains_key(id) && is_member(threads[id], section, thread_id) && threads[id].metadata.section_position is Some ==> threads[id].metadata.section_position->0
        < position
}

proof fn lemma_free_position(threads: Map<ThreadId, ThreadRow>, section: &str, thread_id: ThreadId, before: Option<ThreadId>, position: i64)
    requires
        threads_keyed(threads),
        before is Some ==> is_anchor(threads, section@, before->0),
        is_free_position(threads, section, thread_id, before, Some(position)),
    ensures
        match before {
            Some(before) => lies_in_front(threads, section@, thread_id, before, position),
            None => lies_behind(threads, section@, thread_id, position),
        },
{
    match before {
        Some(before) => {
            let upper = threads[before].metadata.section_position->0;
            let condition = PositionedMembers { section, excluded: thread_id, bound: Some(upper) };
            let lower = choose|lower: Option<i64>| #[trigger] is_highest(threads, condition, lower) && Some(position) == position_between(lower, upper);
            if lower is Some {
                assert(lower->0 < position < upper) by {
                    let gap = upper - lower->0;
                    assert(1 <= gap / 2 < gap);
                }
            }
            assert forall|id: ThreadId| #[trigger] threads.contains_key(id) && is_member(threads[id], section@, thread_id)
                && threads[id].metadata.section_position is Some implies threads[id].metadata.section_position->0 < position
                || threads[id].metadata.section_position->0 >= upper by {
                if threads[id].metadata.section_position->0 < upper {
                    assert(row_selected::<ThreadRow, PositionedMembers>(threads, condition, threads[id]));
                }
            }
        },
        None => {
            let condition = PositionedMembers { section, excluded: thread_id, bound: None };
            let last = choose|last: Option<i64>| #[trigger]
                is_highest(threads, condition, last) && Some(position) == super::section_order::position_after(last);
            assert forall|id: ThreadId| #[trigger] threads.contains_key(id) && is_member(threads[id], section@, thread_id)
                && threads[id].metadata.section_position is Some implies threads[id].metadata.section_position->0 < position by {
                assert(row_selected::<ThreadRow, PositionedMembers>(threads, condition, threads[id]));
            }
        },
    }
}

/// The threads of the section, but for one, are the same and in the same order; all other threads
/// are as they were.
pub open spec fn order_kept(before: Map<ThreadId, ThreadRow>, after: Map<ThreadId, ThreadRow>, section: Seq<char>, excluded: ThreadId) -> bool {
    &&& before.dom() == after.dom()
    &&& threads_keyed(after)
    &&& forall|id: ThreadId| #[trigger] before.contains_key(id) ==> {
        ||| after[id] == before[id]
        ||| is_member(before[id], section, excluded) && after[id].metadata.section_position is Some && after[id] == repositioned(
            before[id],
            after[id].metadata.section_position->0,
        )
    }
    &&& forall|a: ThreadId, b: ThreadId|
        #![trigger before.contains_key(a), before.contains_key(b)]
        before.contains_key(a) && before.contains_key(b) && is_member(before[a], section, excluded) && is_member(before[b], section, excluded) ==> (ByPosition {  }).before(before[a], before[b])
            == (ByPosition {  }).before(after[a], after[b])
}

proof fn lemma_spread_keeps_order(threads: Map<ThreadId, ThreadRow>, section: &str, excluded: ThreadId, listed: Seq<ThreadRow>)
    requires
        threads_keyed(threads),
        is_section_order(threads, section, excluded, listed),
        listed.len() * SECTION_POSITION_GAP <= i64::MAX,
    ensures
        order_kept(threads, spread_out(threads, listed), section@, excluded),
{
    lemma_spread_out(threads, section, excluded, listed);
    let after = spread_out(threads, listed);
    let members = SectionMembers { section, excluded };
    let ranking = ByPosition {  };
    assert forall|id: ThreadId| #[trigger] threads.contains_key(id) && is_member(threads[id], section@, excluded) implies exists|i: int|
        0 <= i < listed.len() && #[trigger] listed[i] == threads[id] by {
        assert(row_selected::<ThreadRow, SectionMembers>(threads, members, threads[id]));
        assert(listed.contains(threads[id]));
    }
    assert forall|id: ThreadId| #[trigger] threads.contains_key(id) implies after[id] == threads[id] || is_member(threads[id], section@, excluded)
        && after[id].metadata.section_position is Some && after[id] == repositioned(threads[id], after[id].metadata.section_position->0) by {
        if is_member(threads[id], section@, excluded) {
            let i = choose|i: int| 0 <= i < listed.len() && #[trigger] listed[i] == threads[id];
            assert(after[listed[i].metadata.id] == repositioned(listed[i], ((i + 1) * SECTION_POSITION_GAP) as i64));
        }
    }
    assert(threads_keyed(after)) by {
        assert forall|id: ThreadId| #[trigger] after.contains_key(id) implies after[id].metadata.id == id by {
            assert(threads.contains_key(id));
        }
    }
    assert forall|a: ThreadId, b: ThreadId|
        #![trigger threads.contains_key(a), threads.contains_key(b)]
        threads.contains_key(a) && threads.contains_key(b) && is_member(threads[a], section@, excluded) && is_member(threads[b], section@, excluded) implies ranking.before(
        threads[a],
        threads[b],
    ) == ranking.before(after[a], after[b]) by {
        let i = choose|i: int| 0 <= i < listed.len() && #[trigger] listed[i] == threads[a];
        let j = choose|j: int| 0 <= j < listed.len() && #[trigger] listed[j] == threads[b];
        assert(after[listed[i].metadata.id] == repositioned(listed[i], ((i + 1) * SECTION_POSITION_GAP) as i64));
        assert(after[listed[j].metadata.id] == repositioned(listed[j], ((j + 1) * SECTION_POSITION_GAP) as i64));
        if i < j {
            assert(!ranking.before(listed[j], listed[i]));
            assert(ThreadRow::key_of(listed[i]) != ThreadRow::key_of(listed[j]));
        } else if j < i {
            assert(!ranking.before(listed[i], listed[j]));
            assert(ThreadRow::key_of(listed[j]) != ThreadRow::key_of(listed[i]));
        }
    }
}

/// After a move, the thread is in the section directly in front of the thread it was moved before,
/// or behind all others; the other threads of the section keep their order, and no other thread
/// changes.
pub proof fn law_moved_thread_gets_its_place(
    state: StateRuntimeView,
    thread_id: ThreadId,
    section: &str,
    before: Option<ThreadId>,
    now: i64,
    after: StateRuntimeView,
)
    requires
        state.keyed(),
        state.threads.contains_key(thread_id),
        moving(state, thread_id, Some(section), before, now, after, Ok(true)),
    ensures
        after == state.with_threads(after.threads),
        after.threads.contains_key(thread_id),
        in_section(after.threads[thread_id], section@),
        after.threads[thread_id].metadata.section_position is Some,
        ({
            let position = after.threads[thread_id].metadata.section_position->0;
            match before {
                Some(before) => lies_in_front(after.threads, section@, thread_id, before, position),
                None => lies_behind(after.threads, section@, thread_id, position),
            }
        }),
        exists|others: Map<ThreadId, ThreadRow>| #[trigger]
            order_kept(state.threads, others, section@, thread_id) && after.threads == others.insert(thread_id, after.threads[thread_id]),
        !in_section(state.threads[thread_id], section@) ==> after.threads[thread_id].metadata.section_entered_at == Some(now),
        in_section(state.threads[thread_id], section@) ==> after.threads[thread_id].metadata.section_entered_at == state.threads[thread_id].metadata.section_entered_at,
{
    let threads = state.threads;
    let target = state.sections[section@];
    let found = choose|found: Option<i64>| #[trigger] is_free_position(threads, section, thread_id, before, found) && match found {
        Some(position) => Some(after.threads) == Some(threads.insert(thread_id, moved(threads[thread_id], target, position, now))),
        None => exists|listed: Seq<ThreadRow>| #[trigger] is_section_order(threads, section, thread_id, listed) && {
            let spread = spread_out(threads, listed);
            if listed.len() * SECTION_POSITION_GAP > i64::MAX {
                Some(after.threads) is None
            } else {
                exists|found: Option<i64>| #[trigger] is_free_position(spread, section, thread_id, before, found) && match found {
                    Some(position) => Some(after.threads) == Some(spread.insert(thread_id, moved(spread[thread_id], target, position, now))),
                    None => Some(after.threads) is None,
                }
            }
        },
    };
    match found {
        Some(position) => {
            assert(order_kept(threads, threads, section@, thread_id));
            lemma_placed(threads, target, section, thread_id, before, position, now);
        },
        None => {
            let listed = choose|listed: Seq<ThreadRow>| #[trigger] is_section_order(threads, section, thread_id, listed) && {
                let spread = spread_out(threads, listed);
                if listed.len() * SECTION_POSITION_GAP > i64::MAX {
                    Some(after.threads) is None
                } else {
                    exists|found: Option<i64>| #[trigger] is_free_position(spread, section, thread_id, before, found) && match found {
                        Some(position) => Some(after.threads) == Some(spread.insert(thread_id, moved(spread[thread_id], target, position, now))),
                        None => Some(after.threads) is None,
                    }
                }
            };
            let spread = spread_out(threads, listed);
            lemma_spread_keeps_order(threads, section, thread_id, listed);
            assert(spread[thread_id] == threads[thread_id]);
            let position = choose|found: Option<i64>| #[trigger] is_free_position(spread, section, thread_id, before, found) && match found {
                Some(position) => Some(after.threads) == Some(spread.insert(thread_id, moved(spread[thread_id], target, position, now))),
                None => Some(after.threads) is None,
            };
            if let Some(anchor) = before {
                lemma_spread_out(threads, section, thread_id, listed);
                assert(row_selected::<ThreadRow, SectionMembers>(threads, SectionMembers { section, excluded: thread_id }, threads[anchor]));
                assert(listed.contains(threads[anchor]));
                let i = choose|i: int| 0 <= i < listed.len() && listed[i] == threads[anchor];
                assert(spread[listed[i].metadata.id] == repositioned(listed[i], ((i + 1) * SECTION_POSITION_GAP) as i64));
            }
            lemma_placed(spread, target, section, thread_id, before, position->0, now);
        },
    }
}

/// A moved thread is the one that was there, at another place.
pub(super) proof fn lemma_moved_thread_is_placed(
    state: StateRuntimeView,
    thread_id: ThreadId,
    section: &str,
    before: Option<ThreadId>,
    now: i64,
    after: StateRuntimeView,
)
    requires
        state.keyed(),
        moving(state, thread_id, Some(section), before, now, after, Ok(true)),
    ensures
        after.threads.contains_key(thread_id),
        after.threads[thread_id] == placed(
            state.threads[thread_id],
            after.threads[thread_id].metadata.section,
            after.threads[thread_id].metadata.section_position,
            after.threads[thread_id].metadata.section_entered_at,
        ),
{
    let threads = state.threads;
    let target = state.sections[section@];
    let found = choose|found: Option<i64>| #[trigger] is_free_position(threads, section, thread_id, before, found) && match found {
        Some(position) => Some(after.threads) == Some(threads.insert(thread_id, moved(threads[thread_id], target, position, now))),
        None => exists|listed: Seq<ThreadRow>| #[trigger] is_section_order(threads, section, thread_id, listed) && {
            let spread = spread_out(threads, listed);
            if listed.len() * SECTION_POSITION_GAP > i64::MAX {
                Some(after.threads) is None
            } else {
                exists|found: Option<i64>| #[trigger] is_free_position(spread, section, thread_id, before, found) && match found {
                    Some(position) => Some(after.threads) == Some(spread.insert(thread_id, moved(spread[thread_id], target, position, now))),
                    None => Some(after.threads) is None,
                }
            }
        },
    };
    if found is None {
        let listed = choose|listed: Seq<ThreadRow>| #[trigger] is_section_order(threads, section, thread_id, listed) && {
            let spread = spread_out(threads, listed);
            if listed.len() * SECTION_POSITION_GAP > i64::MAX {
                Some(after.threads) is None
            } else {
                exists|found: Option<i64>| #[trigger] is_free_position(spread, section, thread_id, before, found) && match found {
                    Some(position) => Some(after.threads) == Some(spread.insert(thread_id, moved(spread[thread_id], target, position, now))),
                    None => Some(after.threads) is None,
                }
            }
        };
        let spread = spread_out(threads, listed);
        lemma_spread_keeps_order(threads, section, thread_id, listed);
        assert(spread[thread_id] == threads[thread_id]);
        let position = choose|found: Option<i64>| #[trigger] is_free_position(spread, section, thread_id, before, found) && match found {
            Some(position) => Some(after.threads) == Some(spread.insert(thread_id, moved(spread[thread_id], target, position, now))),
            None => Some(after.threads) is None,
        };
        assert(position is Some);
    }
}

proof fn lemma_placed(
    threads: Map<ThreadId, ThreadRow>,
    target: ThreadSection,
    section: &str,
    thread_id: ThreadId,
    before: Option<ThreadId>,
    position: i64,
    now: i64,
)
    requires
        threads_keyed(threads),
        threads.contains_key(thread_id),
        target.id@ == section@,
        before != Some(thread_id),
        before is Some ==> is_anchor(threads, section@, before->0),
        is_free_position(threads, section, thread_id, before, Some(position)),
    ensures
        ({
            let after = threads.insert(thread_id, moved(threads[thread_id], target, position, now));
            &&& in_section(after[thread_id], section@)
            &&& after[thread_id].metadata.section_position == Some(position)
            &&& match before {
                Some(before) => lies_in_front(after, section@, thread_id, before, position),
                None => lies_behind(after, section@, thread_id, position),
            }
        }),
{
    lemma_free_position(threads, section, thread_id, before, position);
    let after = threads.insert(thread_id, moved(threads[thread_id], target, position, now));
    assert forall|id: ThreadId| #[trigger] after.contains_key(id) && is_member(after[id], section@, thread_id) implies threads.contains_key(id) && after[id]
        == threads[id] by {
        assert(after[thread_id].metadata.id == thread_id);
    }
}

/// A move fails for want of a position only where the positions of the section would leave their
/// range even when spread out.
pub proof fn law_there_is_room_unless_positions_run_out(
    state: StateRuntimeView,
    thread_id: ThreadId,
    section: &str,
    before: Option<ThreadId>,
    now: i64,
    after: StateRuntimeView,
    listed: Seq<ThreadRow>,
)
    requires
        state.keyed(),
        state.threads.contains_key(thread_id),
        move_error(state, thread_id, section@, before) is None,
        is_section_order(state.threads, section, thread_id, listed),
        (listed.len() + 1) * SECTION_POSITION_GAP <= i64::MAX,
    ensures
        !is_section_move(state.threads, state.sections[section@], section, thread_id, before, now, None),
{
    let threads = state.threads;
    let target = state.sections[section@];
    if is_section_move(threads, target, section, thread_id, before, now, None) {
        let after: Option<Map<ThreadId, ThreadRow>> = None;
        let found = choose|found: Option<i64>| #[trigger] is_free_position(threads, section, thread_id, before, found) && match found {
            Some(position) => after == Some(threads.insert(thread_id, moved(threads[thread_id], target, position, now))),
            None => exists|listed: Seq<ThreadRow>| #[trigger] is_section_order(threads, section, thread_id, listed) && {
                let spread = spread_out(threads, listed);
                if listed.len() * SECTION_POSITION_GAP > i64::MAX {
                    after is None
                } else {
                    exists|found: Option<i64>| #[trigger] is_free_position(spread, section, thread_id, before, found) && match found {
                        Some(position) => after == Some(spread.insert(thread_id, moved(spread[thread_id], target, position, now))),
                        None => after is None,
                    }
                }
            },
        };
        let other = choose|other: Seq<ThreadRow>| #[trigger] is_section_order(threads, section, thread_id, other) && {
            let spread = spread_out(threads, other);
            if other.len() * SECTION_POSITION_GAP > i64::MAX {
                after is None
            } else {
                exists|found: Option<i64>| #[trigger] is_free_position(spread, section, thread_id, before, found) && match found {
                    Some(position) => after == Some(spread.insert(thread_id, moved(spread[thread_id], target, position, now))),
                    None => after is None,
                }
            }
        };
        lemma_same_size(threads, section, thread_id, listed, other);
        let spread = spread_out(threads, other);
        assert(is_free_position(spread, section, thread_id, before, None));
        lemma_spread_has_room(threads, section, thread_id, before, other);
    }
}

proof fn lemma_same_size(threads: Map<ThreadId, ThreadRow>, section: &str, excluded: ThreadId, a: Seq<ThreadRow>, b: Seq<ThreadRow>)
    requires
        is_section_order(threads, section, excluded, a),
        is_section_order(threads, section, excluded, b),
    ensures
        a.len() == b.len(),
{
    let members = SectionMembers { section, excluded };
    assert(a.no_duplicates()) by {
        assert forall|i: int, j: int| 0 <= i < j < a.len() implies a[i] != a[j] by {
            assert(ThreadRow::key_of(a[i]) != ThreadRow::key_of(a[j]));
        }
    }
    assert(b.no_duplicates()) by {
        assert forall|i: int, j: int| 0 <= i < j < b.len() implies b[i] != b[j] by {
            assert(ThreadRow::key_of(b[i]) != ThreadRow::key_of(b[j]));
        }
    }
    a.unique_seq_to_set();
    b.unique_seq_to_set();
    assert(a.to_set() =~= b.to_set()) by {
        assert forall|row: ThreadRow| #[trigger] a.to_set().contains(row) implies b.to_set().contains(row) by {
            let i = choose|i: int| 0 <= i < a.len() && a[i] == row;
            assert(row_selected::<ThreadRow, SectionMembers>(threads, members, a[i]));
            assert(b.contains(row));
        }
        assert forall|row: ThreadRow| #[trigger] b.to_set().contains(row) implies a.to_set().contains(row) by {
            let i = choose|i: int| 0 <= i < b.len() && b[i] == row;
            assert(row_selected::<ThreadRow, SectionMembers>(threads, members, b[i]));
            assert(a.contains(row));
        }
    }
}

/// Spread-out positions leave room everywhere.
proof fn lemma_spread_has_room(threads: Map<ThreadId, ThreadRow>, section: &str, thread_id: ThreadId, before: Option<ThreadId>, listed: Seq<ThreadRow>)
    requires
        threads_keyed(threads),
        is_section_order(threads, section, thread_id, listed),
        (listed.len() + 1) * SECTION_POSITION_GAP <= i64::MAX,
        before is Some ==> before->0 != thread_id && is_anchor(threads, section@, before->0),
    ensures
        !is_free_position(spread_out(threads, listed), section, thread_id, before, None),
{
    let spread = spread_out(threads, listed);
    lemma_spread_out(threads, section, thread_id, listed);
    lemma_spread_keeps_order(threads, section, thread_id, listed);
    // Every member of the section has one of the positions given out.
    assert forall|id: ThreadId| #[trigger] spread.contains_key(id) && is_member(spread[id], section@, thread_id) implies exists|i: int|
        0 <= i < listed.len() && (#[trigger] listed[i]).metadata.id == id && spread[id].metadata.section_position == Some(((i + 1) * SECTION_POSITION_GAP) as i64) by {
        assert(threads.contains_key(id));
        assert(is_member(threads[id], section@, thread_id));
        assert(row_selected::<ThreadRow, SectionMembers>(threads, SectionMembers { section, excluded: thread_id }, threads[id]));
        assert(listed.contains(threads[id]));
        let i = choose|i: int| 0 <= i < listed.len() && listed[i] == threads[id];
        assert(spread[listed[i].metadata.id] == repositioned(listed[i], ((i + 1) * SECTION_POSITION_GAP) as i64));
    }
    if is_free_position(spread, section, thread_id, before, None) {
        match before {
            Some(anchor) => {
                assert(spread.contains_key(anchor) && is_member(spread[anchor], section@, thread_id));
                let k = choose|k: int|
                    0 <= k < listed.len() && (#[trigger] listed[k]).metadata.id == anchor && spread[anchor].metadata.section_position == Some(
                        ((k + 1) * SECTION_POSITION_GAP) as i64,
                    );
                let upper = spread[anchor].metadata.section_position->0;
                let condition = PositionedMembers { section, excluded: thread_id, bound: Some(upper) };
                let lower = choose|lower: Option<i64>| #[trigger]
                    is_highest(spread, condition, lower) && None::<i64> == position_between(lower, upper);
                if lower is Some {
                    let row = choose|row: ThreadRow| #[trigger]
                        row_selected::<ThreadRow, PositionedMembers>(spread, condition, row) && row.metadata.section_position == lower;
                    assert(spread.contains_key(row.metadata.id) && is_member(spread[row.metadata.id], section@, thread_id));
                    let i = choose|i: int|
                        0 <= i < listed.len() && (#[trigger] listed[i]).metadata.id == row.metadata.id && spread[row.metadata.id].metadata.section_position == Some(
                            ((i + 1) * SECTION_POSITION_GAP) as i64,
                        );
                    assert((i + 1) * SECTION_POSITION_GAP < (k + 1) * SECTION_POSITION_GAP);
                    assert(i < k);
                    assert(upper - lower->0 >= SECTION_POSITION_GAP);
                } else {
                    assert(upper >= SECTION_POSITION_GAP);
                }
            },
            None => {
                let condition = PositionedMembers { section, excluded: thread_id, bound: None };
                let last = choose|last: Option<i64>| #[trigger]
                    is_highest(spread, condition, last) && None::<i64> == super::section_order::position_after(last);
                if last is Some {
                    let row = choose|row: ThreadRow| #[trigger]
                        row_selected::<ThreadRow, PositionedMembers>(spread, condition, row) && row.metadata.section_position == last;
                    assert(spread.contains_key(row.metadata.id) && is_member(spread[row.metadata.id], section@, thread_id));
                    let i = choose|i: int|
                        0 <= i < listed.len() && (#[trigger] listed[i]).metadata.id == row.metadata.id && spread[row.metadata.id].metadata.section_position == Some(
                            ((i + 1) * SECTION_POSITION_GAP) as i64,
                        );
                    assert((i + 1) * SECTION_POSITION_GAP <= listed.len() * SECTION_POSITION_GAP);
                }
            },
        }
    }
}

/// Nothing changes when a move fails.
pub proof fn law_failed_move_changes_nothing(
    state: StateRuntimeView,
    thread_id: ThreadId,
    section: Option<&str>,
    before: Option<ThreadId>,
    now: i64,
    after: StateRuntimeView,
    result: Result<bool, SectionMoveErrorView>,
)
    requires
        moving(state, thread_id, section, before, now, after, result),
        result != Ok::<bool, SectionMoveErrorView>(true),
    ensures
        after == state,
{
}

/// The pages of sections skip nothing and repeat nothing: a section after the cursor is either on
/// the page or after the cursor of the next page.
pub proof fn law_section_pages_are_complete(
    sections: Map<Seq<char>, ThreadSection>,
    cursor: Option<&str>,
    limit: usize,
    page: ThreadSectionsPage,
    section: ThreadSection,
)
    requires
        countable::<ThreadSection>(sections),
        is_section_page(sections, cursor, limit, page),
        sections.contains_key(section.id@),
        sections[section.id@] == section,
        cursor is Some ==> text_before(cursor->0@, section.id@),
    ensures
        page.sections@.contains(section) <==> !(page.next_cursor is Some && text_before(page.next_cursor->0@, section.id@)),
{
    let size = section_page_size(limit);
    let condition = AfterCursor { cursor };
    let ranking = BySectionId {  };
    let fetched = choose|fetched: Seq<ThreadSection>| {
        &&& #[trigger] is_listing::<ThreadSection, AfterCursor, BySectionId>(sections, condition, ranking, section_fetch_size(limit), fetched)
        &&& if fetched.len() > size {
            &&& page.sections@ == fetched.take(size as int)
            &&& opt_view(page.next_cursor) == Some(fetched[size - 1].id@)
        } else {
            &&& page.sections@ == fetched
            &&& page.next_cursor is None
        }
    };
    assert(row_selected::<ThreadSection, AfterCursor>(sections, condition, section));
    if fetched.len() <= size && fetched.len() == section_fetch_size(limit) {
        assert forall|i: int| #![trigger fetched[i]] 0 <= i < fetched.len() implies sections.contains_key(ThreadSection::key_of(fetched[i]))
            && sections[ThreadSection::key_of(fetched[i])] == fetched[i] by {
            assert(row_selected::<ThreadSection, AfterCursor>(sections, condition, fetched[i]));
        }
        lemma_covers::<ThreadSection>(sections, fetched, section);
    }
    if fetched.len() > size {
        let last = fetched[size - 1];
        let shown = fetched.take(size as int);
        if fetched.contains(section) {
            let i = choose|i: int| 0 <= i < fetched.len() && fetched[i] == section;
            if i < size {
                assert(shown[i] == section);
                if i < size - 1 {
                    assert(!ranking.before(fetched[size - 1], fetched[i]));
                } else if text_before(last.id@, section.id@) {
                    lemma_text_before_asymmetric(last.id@, section.id@);
                }
            } else {
                assert(ThreadSection::key_of(fetched[size - 1]) != ThreadSection::key_of(fetched[i]));
                assert(!ranking.before(fetched[i], fetched[size - 1]));
                lemma_text_before_total(last.id@, section.id@);
                if shown.contains(section) {
                    let k = choose|k: int| 0 <= k < shown.len() && shown[k] == section;
                    assert(ThreadSection::key_of(fetched[k]) != ThreadSection::key_of(fetched[i]));
                }
            }
        } else {
            assert(!ranking.before(section, fetched[size - 1]));
            if last.id@ == section.id@ {
                assert(row_selected::<ThreadSection, AfterCursor>(sections, condition, fetched[size - 1]));
                assert(fetched[size - 1] == section);
            } else {
                lemma_text_before_total(last.id@, section.id@);
            }
            if shown.contains(section) {
                let k = choose|k: int| 0 <= k < shown.len() && shown[k] == section;
                assert(fetched[k] == section);
            }
        }
    }
}

} // verus!
