//! Which values occur in a sequence.

use vstd::prelude::*;

verus! {

pub proof fn lemma_filter_members<A>(items: Seq<A>, keep: spec_fn(A) -> bool, item: A)
    ensures
        items.filter(keep).contains(item) <==> items.contains(item) && keep(item),
    decreases items.len(),
{
    reveal(Seq::filter);
    if items.len() > 0 {
        let rest = items.drop_last();
        lemma_filter_members(rest, keep, item);
        lemma_push_members(rest, items.last(), item);
        assert(rest.push(items.last()) =~= items);
        lemma_push_members(rest.filter(keep), items.last(), item);
    }
}

pub proof fn lemma_push_members<A>(items: Seq<A>, pushed: A, item: A)
    ensures
        items.push(pushed).contains(item) <==> items.contains(item) || item == pushed,
{
    let after = items.push(pushed);
    if items.contains(item) {
        let i = choose|i: int| 0 <= i < items.len() && items[i] == item;
        assert(after[i] == item);
    }
    if item == pushed {
        assert(after[items.len() as int] == item);
    }
    if after.contains(item) {
        let i = choose|i: int| 0 <= i < after.len() && after[i] == item;
        if i < items.len() {
            assert(items[i] == item);
        }
    }
}

pub proof fn lemma_concat_members<A>(left: Seq<A>, right: Seq<A>, item: A)
    ensures
        (left + right).contains(item) <==> left.contains(item) || right.contains(item),
{
    let both = left + right;
    if left.contains(item) {
        let i = choose|i: int| 0 <= i < left.len() && left[i] == item;
        assert(both[i] == item);
    }
    if right.contains(item) {
        let i = choose|i: int| 0 <= i < right.len() && right[i] == item;
        assert(both[left.len() + i] == item);
    }
    if both.contains(item) {
        let i = choose|i: int| 0 <= i < both.len() && both[i] == item;
        if i < left.len() {
            assert(left[i] == item);
        } else {
            assert(right[i - left.len()] == item);
        }
    }
}

/// Whether the bytes are the same.
pub fn same_bytes(left: &[u8], right: &[u8]) -> (same: bool)
    ensures
        same == (left@ == right@),
{
    if left.len() != right.len() {
        return false;
    }
    let mut i: usize = 0;
    while i < left.len()
        invariant
            left@.len() == right@.len(),
            i <= left@.len(),
            forall|j: int| 0 <= j < i ==> left@[j] == right@[j],
        decreases left@.len() - i,
    {
        if left[i] != right[i] {
            return false;
        }
        i += 1;
    }
    assert(left@ =~= right@);
    true
}

} // verus!
