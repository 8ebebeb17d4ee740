//! The handle table as a mathematical object, and what holds of it.

use vstd::prelude::*;

use crate::error::Error;
use crate::object::handle::{lemma_grants_bitwise, HandleView};
use crate::object::rights::{bit_kept, has_bit, HandleRights, TRANSFER_BIT};

verus! {

/// What a handle table stands for.
///
/// `slots[i]` is the handle at index `i`, if there is one. `free` is the
/// stack of indices that were given back and not handed out again; its last
/// element is the one that goes out next.
pub struct TableView<R> {
    pub slots: Seq<Option<HandleView<R>>>,
    pub free: Seq<int>,
}

/// The result of a lookup that finds `h`.
pub open spec fn found<R>(h: HandleView<R>) -> Result<HandleView<R>, Error> {
    Ok(h)
}

impl<R> TableView<R> {
    /// The table without any slot.
    pub open spec fn empty() -> TableView<R> {
        TableView { slots: Seq::empty(), free: Seq::empty() }
    }

    /// Index `i` names a slot that holds a handle.
    pub open spec fn occupied(self, i: int) -> bool {
        0 <= i < self.slots.len() && self.slots[i] is Some
    }

    /// The free stack lists exactly the empty slots, each of them once.
    pub open spec fn wf(self) -> bool {
        &&& forall|k: int|
            0 <= k < self.free.len() ==> 0 <= #[trigger] self.free[k] < self.slots.len()
                && self.slots[self.free[k]] is None
        &&& forall|k: int, l: int|
            0 <= k < l < self.free.len() ==> #[trigger] self.free[k] != #[trigger] self.free[l]
        &&& forall|i: int|
            0 <= i < self.slots.len() && (#[trigger] self.slots[i]) is None
                ==> self.free.contains(i)
    }

    /// What a lookup of index `i` gives.
    pub open spec fn get(self, i: int) -> Result<HandleView<R>, Error> {
        if self.occupied(i) {
            Ok(self.slots[i]->Some_0)
        } else {
            Err(Error::NotFound)
        }
    }

    /// The index that the next insertion uses: the most recently freed one
    /// if any is free, else one past the last slot.
    pub open spec fn next_index(self) -> int {
        if self.free.len() > 0 {
            self.free.last()
        } else {
            self.slots.len() as int
        }
    }

    /// The table after `h` went into the slot at `next_index()`.
    pub open spec fn insert(self, h: HandleView<R>) -> TableView<R> {
        if self.free.len() > 0 {
            TableView {
                slots: self.slots.update(self.free.last(), Some(h)),
                free: self.free.drop_last(),
            }
        } else {
            TableView { slots: self.slots.push(Some(h)), free: self.free }
        }
    }

    /// The table after the handle at index `i` was taken out, where there
    /// is one; the table itself where there is none.
    pub open spec fn remove(self, i: int) -> TableView<R> {
        if self.occupied(i) {
            TableView { slots: self.slots.update(i, None), free: self.free.push(i) }
        } else {
            self
        }
    }

    /// Why no copy with rights `new_rights` can be made of the handle at
    /// index `i`, or `None` if one can.
    pub open spec fn refusal(self, i: int, new_rights: HandleRights) -> Option<Error> {
        if !self.occupied(i) {
            Some(Error::NotFound)
        } else if !self.slots[i]->Some_0.grants(new_rights) {
            Some(Error::AccessDenied)
        } else {
            None
        }
    }

    /// Insertion keeps the table well formed.
    pub proof fn lemma_insert_wf(self, h: HandleView<R>)
        requires
            self.wf(),
        ensures
            self.insert(h).wf(),
    {
        let t = self.insert(h);
        if self.free.len() > 0 {
            assert forall|i: int| 0 <= i < t.slots.len() && (#[trigger] t.slots[i]) is None
                implies t.free.contains(i) by {
                assert(self.slots[i] is None);
                let k = choose|k: int| 0 <= k < self.free.len() && self.free[k] == i;
                assert(t.free[k] == i);
            }
        } else {
            assert forall|i: int| 0 <= i < t.slots.len() && (#[trigger] t.slots[i]) is None
                implies t.free.contains(i) by {
                assert(self.slots[i] is None);
                assert(self.free.contains(i));
            }
        }
    }

    /// A handle that was put in is found at the index that was announced,
    /// which held none before; every other index holds what it held.
    pub proof fn lemma_insert_get(self, h: HandleView<R>)
        requires
            self.wf(),
        ensures
            !self.occupied(self.next_index()),
            self.insert(h).get(self.next_index()) == found(h),
            forall|i: int| i != self.next_index() ==> self.insert(h).get(i) == self.get(i),
    {
    }

    /// Removal keeps the table well formed.
    pub proof fn lemma_remove_wf(self, i: int)
        requires
            self.wf(),
        ensures
            self.remove(i).wf(),
    {
        let t = self.remove(i);
        if self.occupied(i) {
            assert forall|j: int| 0 <= j < t.slots.len() && (#[trigger] t.slots[j]) is None
                implies t.free.contains(j) by {
                if j == i {
                    assert(t.free[self.free.len() as int] == i);
                } else {
                    assert(self.slots[j] is None);
                    let k = choose|k: int| 0 <= k < self.free.len() && self.free[k] == j;
                    assert(t.free[k] == j);
                }
            }
        }
    }

    /// Once a handle was taken out, its index finds nothing; an index that
    /// held nothing still finds nothing.
    pub proof fn lemma_remove_then_get(self, i: int)
        ensures
            self.remove(i).get(i) == Err::<HandleView<R>, Error>(Error::NotFound),
    {
    }

    /// Taking the handle at one index out leaves every other index alone.
    pub proof fn lemma_remove_keeps_others(self, i: int, j: int)
        requires
            i != j,
        ensures
            self.remove(i).get(j) == self.get(j),
    {
    }

    /// A handle and a copy of it that went in later stand at different
    /// indices, and taking either out leaves the other where it is.
    pub proof fn lemma_copy_independent(self, i: int, dup: HandleView<R>)
        requires
            self.wf(),
            self.occupied(i),
        ensures
            self.next_index() != i,
            self.insert(dup).get(i) == self.get(i),
            self.insert(dup).remove(i).get(self.next_index()) == found(dup),
            self.insert(dup).remove(self.next_index()).get(i) == self.get(i),
    {
        self.lemma_insert_get(dup);
    }

    /// An index that was given back is the first to go out again, and no
    /// slot is added for the handle that takes it.
    pub proof fn lemma_remove_then_insert_reuses(self, i: int, h: HandleView<R>)
        requires
            self.occupied(i),
        ensures
            self.remove(i).next_index() == i,
            self.remove(i).insert(h).get(i) == found(h),
            self.remove(i).insert(h).slots.len() == self.slots.len(),
    {
    }

    /// An index that is out of range, or whose slot is empty, refuses every
    /// operation with `NotFound`, and removal there changes nothing.
    pub proof fn lemma_missing_not_found(self, i: int, new_rights: HandleRights)
        requires
            !self.occupied(i),
        ensures
            self.get(i) == Err::<HandleView<R>, Error>(Error::NotFound),
            self.remove(i) == self,
            self.refusal(i, new_rights) == Some(Error::NotFound),
    {
    }

    /// A copy of the handle at `i` is denied whenever it asks for a right,
    /// here the one with bit number `bit`, that the handle does not carry.
    pub proof fn lemma_excess_right_denied(self, i: int, new_rights: HandleRights, bit: u32)
        requires
            self.occupied(i),
            bit < 32,
            has_bit(new_rights@, bit),
            !has_bit(self.slots[i].unwrap().rights@, bit),
        ensures
            self.refusal(i, new_rights) == Some(Error::AccessDenied),
    {
        lemma_grants_bitwise(self.slots[i].unwrap(), new_rights);
        assert(!bit_kept(self.slots[i].unwrap().rights@, new_rights@, bit));
    }

    /// A copy of the handle at `i` is denied, whatever rights it asks for,
    /// whenever the handle lacks the transfer right.
    pub proof fn lemma_without_transfer_denied(self, i: int, new_rights: HandleRights)
        requires
            self.occupied(i),
            !has_bit(self.slots[i].unwrap().rights@, TRANSFER_BIT),
        ensures
            self.refusal(i, new_rights) == Some(Error::AccessDenied),
    {
        lemma_grants_bitwise(self.slots[i].unwrap(), new_rights);
    }

    /// The table after the handles of `hs` went in, one after the other.
    pub open spec fn insert_all(self, hs: Seq<HandleView<R>>) -> TableView<R>
        decreases hs.len(),
    {
        if hs.len() == 0 {
            self
        } else {
            self.insert_all(hs.drop_last()).insert(hs.last())
        }
    }

    /// The index at which `hs[k]` goes in when the handles of `hs` go in,
    /// one after the other.
    pub open spec fn index_of_insertion(self, hs: Seq<HandleView<R>>, k: int) -> int {
        self.insert_all(hs.take(k)).next_index()
    }

    /// When handles go in one after the other and none is taken out, no
    /// index is handed out twice, none of them was in use before, and each
    /// finds the handle that it was handed out for.
    pub proof fn lemma_insertions_distinct(self, hs: Seq<HandleView<R>>)
        requires
            self.wf(),
        ensures
            self.insert_all(hs).wf(),
            forall|k: int|
                0 <= k < hs.len() ==> !self.occupied(#[trigger] self.index_of_insertion(hs, k)),
            forall|k: int|
                0 <= k < hs.len() ==> self.insert_all(hs).get(
                    #[trigger] self.index_of_insertion(hs, k),
                ) == found(hs[k]),
            forall|k: int, l: int|
                0 <= k < l < hs.len() ==> #[trigger] self.index_of_insertion(hs, k)
                    != #[trigger] self.index_of_insertion(hs, l),
            forall|i: int| self.occupied(i) ==> self.insert_all(hs).get(i) == self.get(i),
        decreases hs.len(),
    {
        if hs.len() > 0 {
            let n = hs.len() - 1;
            let init = hs.drop_last();
            let before = self.insert_all(init);
            self.lemma_insertions_distinct(init);
            before.lemma_insert_wf(hs.last());
            before.lemma_insert_get(hs.last());
            assert(hs.take(n) == init);
            assert forall|k: int| 0 <= k < n implies self.index_of_insertion(hs, k)
                == self.index_of_insertion(init, k) by {
                assert(hs.take(k) == init.take(k));
            }
            assert(self.index_of_insertion(hs, n) == before.next_index());
            assert forall|k: int| 0 <= k < hs.len() implies !self.occupied(
                #[trigger] self.index_of_insertion(hs, k),
            ) by {
                if k < n {
                    assert(!self.occupied(self.index_of_insertion(init, k)));
                }
            }
            assert forall|k: int| 0 <= k < hs.len() implies self.insert_all(hs).get(
                #[trigger] self.index_of_insertion(hs, k),
            ) == found(hs[k]) by {
                if k < n {
                    assert(before.get(self.index_of_insertion(init, k)) == found(init[k]));
                }
            }
            assert forall|k: int, l: int| 0 <= k < l < hs.len() implies #[trigger]
                self.index_of_insertion(hs, k) != #[trigger] self.index_of_insertion(hs, l) by {
                if l < n {
                    assert(self.index_of_insertion(init, k) != self.index_of_insertion(init, l));
                } else {
                    assert(before.get(self.index_of_insertion(init, k)) == found(init[k]));
                }
            }
        }
    }
}

} // verus!
