//! A handle: a reference to a kernel object together with the rights that
//! its holder has on that object.

use vstd::prelude::*;

use crate::object::rights::{
    bit_kept, has_bit, lemma_contains_bitwise, HandleRights, TRANSFER, TRANSFER_BIT,
};

verus! {

/// What a handle stands for: the object reference it owns and its rights.
pub struct HandleView<R> {
    pub object: R,
    pub rights: HandleRights,
}

impl<R> HandleView<R> {
    /// Whether a copy with rights `new_rights` may be made of this handle:
    /// it carries the transfer right, and `new_rights` asks for nothing
    /// that it does not carry.
    pub open spec fn grants(self, new_rights: HandleRights) -> bool {
        self.rights@ & TRANSFER == TRANSFER && self.rights.spec_contains(new_rights)
    }
}

/// A capability: one owned reference to a kernel object, and the rights
/// that come with it.
///
/// `R` is the reference type of the kernel's object store. The handle owns
/// its reference; dropping the handle releases it.
#[derive(Debug)]
pub struct Handle<R> {
    object: R,
    rights: HandleRights,
}

impl<R> View for Handle<R> {
    type V = HandleView<R>;

    closed spec fn view(&self) -> HandleView<R> {
        HandleView { object: self.object, rights: self.rights }
    }
}

impl<R> Handle<R> {
    /// Wraps an object reference and a set of rights.
    pub fn new(object: R, rights: HandleRights) -> (h: Handle<R>)
        ensures
            h@ == (HandleView { object, rights }),
    {
        Handle { object, rights }
    }

    /// The rights of the handle.
    pub fn rights(&self) -> (r: HandleRights)
        ensures
            r == self@.rights,
    {
        self.rights
    }

    /// The object reference that the handle owns.
    pub fn object(&self) -> (o: &R)
        ensures
            *o == self@.object,
    {
        &self.object
    }

    /// Gives up the handle and hands its object reference to the caller.
    pub fn into_object(self) -> (o: R)
        ensures
            o == self@.object,
    {
        self.object
    }
}

impl<R: Clone> Handle<R> {
    /// Makes a second handle to the same object with rights `new_rights`.
    ///
    /// Rights can only be kept or dropped: the copy is made exactly when
    /// `new_rights` is contained in the rights of `self`.
    pub fn duplicate(&self, new_rights: HandleRights) -> (dup: Option<Handle<R>>)
        ensures
            dup is Some <==> self@.rights.spec_contains(new_rights),
            dup matches Some(h) ==> h@.rights == new_rights && cloned(self@.object, h@.object),
    {
        if self.rights.contains(new_rights) {
            Some(Handle { object: self.object.clone(), rights: new_rights })
        } else {
            None
        }
    }
}

/// Two handles that stand for the same thing are the same handle.
pub proof fn lemma_handle_extensional<R>(a: Handle<R>, b: Handle<R>)
    requires
        a@ == b@,
    ensures
        a == b,
{
}

/// A copy may be made exactly when the handle has the bit of the transfer
/// right set and every bit that is set in `new_rights` is set in the rights
/// of the handle too.
pub proof fn lemma_grants_bitwise<R>(h: HandleView<R>, new_rights: HandleRights)
    ensures
        h.grants(new_rights) <==> has_bit(h.rights@, TRANSFER_BIT) && (forall|i: u32|
            i < 32 ==> #[trigger] bit_kept(h.rights@, new_rights@, i)),
{
    lemma_contains_bitwise(h.rights, new_rights);
    let x = h.rights@;
    assert((x & TRANSFER == TRANSFER) <==> has_bit(x, TRANSFER_BIT)) by (bit_vector);
}

} // verus!
