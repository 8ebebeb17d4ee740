//! The handle table of a process: small integer indices to handles, with
//! reuse of the indices that were given back.

use vstd::prelude::*;

use crate::error::Error;
use crate::object::handle::{Handle, HandleView};
use crate::object::model::{found, TableView};
use crate::object::rights::HandleRights;

verus! {

/// What a slot holds, as the model sees it.
pub open spec fn slot_view<R>(slot: Option<Handle<R>>) -> Option<HandleView<R>> {
    match slot {
        Some(h) => Some(h@),
        None => None,
    }
}

/// The model of a table with slots `array` and free stack `free_indices`.
pub open spec fn table_view<R>(array: Seq<Option<Handle<R>>>, free_indices: Seq<usize>)
    -> TableView<R> {
    TableView {
        slots: Seq::new(array.len(), |i: int| slot_view(array[i])),
        free: Seq::new(free_indices.len(), |k: int| free_indices[k] as int),
    }
}

/// A sparse array of handles and the stack of its free indices.
///
/// The table does no locking of its own: whoever holds it mutably is its
/// only user for the length of a call.
#[derive(Debug)]
pub struct HandleTable<R> {
    /// The slots; `None` marks an empty one.
    array: Vec<Option<Handle<R>>>,
    /// Indices of the empty slots, most recently freed last.
    free_indices: Vec<usize>,
}

impl<R> View for HandleTable<R> {
    type V = TableView<R>;

    closed spec fn view(&self) -> TableView<R> {
        table_view(self.array@, self.free_indices@)
    }
}

impl<R> HandleTable<R> {
    #[verifier::type_invariant]
    spec fn inv(&self) -> bool {
        self@.wf()
    }

    /// A table without any slot.
    pub fn new() -> (table: HandleTable<R>)
        ensures
            table@ == TableView::<R>::empty(),
            table@.wf(),
    {
        let table = HandleTable { array: Vec::new(), free_indices: Vec::new() };
        assert(table@.slots =~= Seq::empty());
        assert(table@.free =~= Seq::empty());
        table
    }

    /// The handle at `index`, or `NotFound` where the index is out of range
    /// or its slot is empty.
    pub fn get(&self, index: usize) -> (r: Result<&Handle<R>, Error>)
        ensures
            match r {
                Ok(h) => self@.get(index as int) == found(h@),
                Err(e) => self@.get(index as int) == Err::<HandleView<R>, Error>(e),
            },
            self@.wf(),
    {
        proof {
            use_type_invariant(self);
        }
        if index < self.array.len() {
            match &self.array[index] {
                Some(h) => Ok(h),
                None => Err(Error::NotFound),
            }
        } else {
            Err(Error::NotFound)
        }
    }

    /// Puts `handle` into the slot at `next_index()`.
    fn allocate_handle(&mut self, handle: Handle<R>) -> (r: Result<usize, Error>)
        ensures
            r matches Ok(index) && index as int == old(self)@.next_index(),
            final(self)@ == old(self)@.insert(handle@),
            final(self)@.wf(),
    {
        proof {
            use_type_invariant(&*self);
            self@.lemma_insert_wf(handle@);
        }
        // The slots and the free stack change together: both are taken out,
        // changed, and put back as one table.
        let mut table = HandleTable::new();
        core::mem::swap(self, &mut table);
        let HandleTable { mut array, mut free_indices } = table;
        let index = match free_indices.pop() {
            Some(index) => {
                array.set(index, Some(handle));
                index
            },
            None => {
                array.push(Some(handle));
                array.len() - 1
            },
        };
        proof {
            let new_view = table_view(array@, free_indices@);
            assert(new_view.slots =~= old(self)@.insert(handle@).slots);
            assert(new_view.free =~= old(self)@.insert(handle@).free);
        }
        *self = HandleTable { array, free_indices };
        Ok(index)
    }

    /// Wraps `object` and `rights` into a handle and puts it into the table.
    ///
    /// The handle goes to the most recently freed index if there is one,
    /// else to a new slot at the end. This always succeeds.
    pub fn allocate(&mut self, object: R, rights: HandleRights) -> (r: Result<usize, Error>)
        ensures
            r matches Ok(index) && index as int == old(self)@.next_index(),
            final(self)@ == old(self)@.insert(HandleView { object, rights }),
            final(self)@.wf(),
    {
        let handle = Handle::new(object, rights);
        self.allocate_handle(handle)
    }

    /// Takes the handle at `index` out of the table and hands it to the
    /// caller; the index becomes the next one to be reused.
    ///
    /// Fails with `NotFound`, and changes nothing, where the index is out of
    /// range or its slot is empty.
    pub fn free(&mut self, index: usize) -> (r: Result<Handle<R>, Error>)
        ensures
            match r {
                Ok(h) => old(self)@.get(index as int) == found(h@),
                Err(e) => old(self)@.get(index as int) == Err::<HandleView<R>, Error>(e),
            },
            final(self)@ == old(self)@.remove(index as int),
            final(self)@.wf(),
    {
        proof {
            use_type_invariant(&*self);
            self@.lemma_remove_wf(index as int);
        }
        if index >= self.array.len() {
            return Err(Error::NotFound);
        }
        let mut table = HandleTable::new();
        core::mem::swap(self, &mut table);
        let HandleTable { mut array, mut free_indices } = table;
        let mut slot: Option<Handle<R>> = None;
        array.set_and_swap(index, &mut slot);
        let r = match slot {
            Some(handle) => {
                free_indices.push(index);
                Ok(handle)
            },
            None => Err(Error::NotFound),
        };
        proof {
            let new_view = table_view(array@, free_indices@);
            assert(new_view.slots =~= old(self)@.remove(index as int).slots);
            assert(new_view.free =~= old(self)@.remove(index as int).free);
        }
        *self = HandleTable { array, free_indices };
        r
    }
}

impl<R: Clone> HandleTable<R> {
    /// Copies `handle`, which may live in another table, into this one with
    /// rights `new_rights`.
    ///
    /// Fails with `AccessDenied`, and changes nothing, unless `handle`
    /// carries the transfer right and `new_rights` is contained in its
    /// rights. The copy owns a reference of its own to the same object.
    pub fn transfer_handle(&mut self, handle: &Handle<R>, new_rights: HandleRights) -> (r: Result<
        usize,
        Error,
    >)
        ensures
            r is Ok <==> handle@.grants(new_rights),
            match r {
                Ok(index) => {
                    &&& index as int == old(self)@.next_index()
                    &&& final(self)@.get(index as int) matches Ok(dup)
                    &&& dup.rights == new_rights
                    &&& cloned(handle@.object, dup.object)
                    &&& final(self)@ == old(self)@.insert(dup)
                },
                Err(e) => e == Error::AccessDenied && final(self)@ == old(self)@,
            },
            final(self)@.wf(),
    {
        proof {
            use_type_invariant(&*self);
        }
        if handle.rights().contains(HandleRights::transfer()) {
            match handle.duplicate(new_rights) {
                Some(dup) => {
                    proof {
                        self@.lemma_insert_get(dup@);
                    }
                    self.allocate_handle(dup)
                },
                None => Err(Error::AccessDenied),
            }
        } else {
            Err(Error::AccessDenied)
        }
    }

    /// Makes a copy, with rights `new_rights`, of the handle at `index` and
    /// puts it into the table at an index of its own.
    ///
    /// Fails with `NotFound` where the index is out of range or its slot is
    /// empty, and with `AccessDenied` unless the handle carries the transfer
    /// right and `new_rights` is contained in its rights. A failure changes
    /// nothing. On success the source handle stays where it is, and the copy
    /// owns a reference of its own to the same object.
    pub fn duplicate(&mut self, index: usize, new_rights: HandleRights) -> (r: Result<usize, Error>)
        ensures
            match r {
                Ok(copy) => {
                    &&& old(self)@.refusal(index as int, new_rights) is None
                    &&& copy as int == old(self)@.next_index()
                    &&& copy != index
                    &&& old(self)@.get(index as int) matches Ok(src)
                    &&& final(self)@.get(copy as int) matches Ok(dup)
                    &&& dup.rights == new_rights
                    &&& cloned(src.object, dup.object)
                    &&& final(self)@ == old(self)@.insert(dup)
                },
                Err(e) => old(self)@.refusal(index as int, new_rights) == Some(e) && final(self)@
                    == old(self)@,
            },
            final(self)@.wf(),
    {
        proof {
            use_type_invariant(&*self);
        }
        let dup = match self.get(index) {
            Ok(handle) => {
                if handle.rights().contains(HandleRights::transfer()) {
                    match handle.duplicate(new_rights) {
                        Some(dup) => dup,
                        None => {
                            return Err(Error::AccessDenied);
                        },
                    }
                } else {
                    return Err(Error::AccessDenied);
                }
            },
            Err(e) => {
                return Err(e);
            },
        };
        proof {
            self@.lemma_insert_get(dup@);
        }
        self.allocate_handle(dup)
    }
}

} // verus!
