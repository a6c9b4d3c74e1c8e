//! The store that holds the values that references point to: slots indexed
//! from 0, with a list of freed slots that allocation reuses, the last freed first.
use vstd::prelude::*;

verus! {

pub struct MemoryStore<V> {
    store: Vec<Option<V>>,
    free_list: Vec<usize>,
}

/// A store as plain values: its slots and its free list.
pub struct MemoryStoreView<V> {
    pub slots: Seq<Option<V>>,
    pub free: Seq<usize>,
}

impl<V> View for MemoryStore<V> {
    type V = MemoryStoreView<V>;

    closed spec fn view(&self) -> MemoryStoreView<V> {
        MemoryStoreView { slots: self.store@, free: self.free_list@ }
    }
}

/// Every index on the free list names a slot of the store.
pub open spec fn store_wf<V>(s: MemoryStoreView<V>) -> bool {
    forall|k: int| 0 <= k < s.free.len() ==> #[trigger] s.free[k] < s.slots.len()
}

/// Allocating `value`: into the slot last freed, or into a new slot at the end.
pub open spec fn spec_allocate<V>(s: MemoryStoreView<V>, value: V) -> (MemoryStoreView<V>, usize) {
    if s.free.len() > 0 {
        let idx = s.free.last();
        (MemoryStoreView { slots: s.slots.update(idx as int, Some(value)), free: s.free.drop_last() }, idx)
    } else {
        (MemoryStoreView { slots: s.slots.push(Some(value)), free: s.free }, s.slots.len() as usize)
    }
}

/// Freeing slot `index`, where it exists: it is emptied and put on the free list.
pub open spec fn spec_deallocate<V>(s: MemoryStoreView<V>, index: usize) -> MemoryStoreView<V> {
    if index < s.slots.len() {
        MemoryStoreView { slots: s.slots.update(index as int, None), free: s.free.push(index) }
    } else {
        s
    }
}

/// An empty store.
pub fn initialise_store<V>() -> (s: MemoryStore<V>)
    ensures
        s@.slots.len() == 0,
        s@.free.len() == 0,
        store_wf(s@),
{
    MemoryStore { store: Vec::new(), free_list: Vec::new() }
}

/// Puts `value` in a slot and returns the slot's index.
pub fn allocate<V>(s: &mut MemoryStore<V>, value: V) -> (idx: usize)
    requires
        store_wf(old(s)@),
        old(s)@.slots.len() < usize::MAX,
    ensures
        (final(s)@, idx) == spec_allocate(old(s)@, value),
        store_wf(final(s)@),
{
    if let Some(idx) = s.free_list.pop() {
        assert(old(s)@.free[old(s)@.free.len() - 1] < old(s)@.slots.len());
        s.store.set(idx, Some(value));
        assert forall|k: int| 0 <= k < s@.free.len() implies #[trigger] s@.free[k] < s@.slots.len() by {
            assert(s@.free[k] == old(s)@.free[k]);
        }
        idx
    } else {
        s.store.push(Some(value));
        assert forall|k: int| 0 <= k < s@.free.len() implies #[trigger] s@.free[k] < s@.slots.len() by {
            assert(s@.free[k] == old(s)@.free[k]);
        }
        s.store.len() - 1
    }
}

/// Empties slot `index` and puts it on the free list; an index past the end does nothing.
pub fn deallocate<V>(s: &mut MemoryStore<V>, index: usize)
    requires
        store_wf(old(s)@),
    ensures
        final(s)@ == spec_deallocate(old(s)@, index),
        store_wf(final(s)@),
{
    if index < s.store.len() {
        s.store.set(index, None);
        s.free_list.push(index);
        assert forall|k: int| 0 <= k < s@.free.len() implies #[trigger] s@.free[k] < s@.slots.len() by {
            if k < old(s)@.free.len() {
                assert(s@.free[k] == old(s)@.free[k]);
            }
        }
    }
}

/// The value in slot `index`, which must be occupied.
pub fn store_get<V: Clone>(s: &MemoryStore<V>, index: usize) -> (v: V)
    requires
        index < s@.slots.len(),
        s@.slots[index as int] is Some,
    ensures
        cloned(s@.slots[index as int]->0, v),
{
    match &s.store[index] {
        Some(v) => v.clone(),
        None => {
            proof {
                assert(false);
            }
            vstd::pervasive::unreached()
        },
    }
}

/// Freeing a slot and allocating again gives back that slot, holding the new value.
pub proof fn law_reuse_freed_slot<V>(s: MemoryStoreView<V>, index: usize, value: V)
    requires
        store_wf(s),
        index < s.slots.len(),
    ensures
        spec_allocate(spec_deallocate(s, index), value).1 == index,
        spec_allocate(spec_deallocate(s, index), value).0.slots[index as int] == Some(value),
        spec_allocate(spec_deallocate(s, index), value).0.free == s.free,
{
}

/// What is allocated can be read back from the slot returned.
pub proof fn law_read_after_allocate<V>(s: MemoryStoreView<V>, value: V)
    requires
        store_wf(s),
        s.slots.len() < usize::MAX,
    ensures
        ({
            let (t, idx) = spec_allocate(s, value);
            &&& idx < t.slots.len()
            &&& t.slots[idx as int] == Some(value)
            &&& store_wf(t)
        }),
{
    let (t, idx) = spec_allocate(s, value);
    if s.free.len() > 0 {
        assert(s.free[s.free.len() - 1] < s.slots.len());
    }
    assert forall|k: int| 0 <= k < t.free.len() implies #[trigger] t.free[k] < t.slots.len() by {
        assert(t.free[k] == s.free[k]);
    }
}

/// Allocation leaves every other slot as it was.
pub proof fn law_allocate_frame<V>(s: MemoryStoreView<V>, value: V, j: int)
    requires
        store_wf(s),
        s.slots.len() < usize::MAX,
        0 <= j < s.slots.len(),
        j != spec_allocate(s, value).1,
    ensures
        spec_allocate(s, value).0.slots[j] == s.slots[j],
{
}

} // verus!
