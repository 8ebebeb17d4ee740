//! Access rights carried by a handle.

use vstd::prelude::*;

verus! {

/// Mask bit of the right to make further handles from a handle.
pub const DUPLICATE: u32 = 1;

/// Mask bit of the right to be copied or moved into a handle table.
pub const TRANSFER: u32 = 2;

/// Number of the bit that `TRANSFER` sets.
pub const TRANSFER_BIT: u32 = 1;

/// A set of access rights, one bit of a 32-bit mask per right.
///
/// Only `DUPLICATE` and `TRANSFER` mean something to this crate; the other
/// bits belong to whatever kind of object the handle refers to and are
/// carried along unchanged.
#[derive(Clone, Copy, Debug, PartialEq, Eq, Structural)]
pub struct HandleRights {
    bits: u32,
}

/// Whether bit number `i` is set in `mask`.
pub open spec fn has_bit(mask: u32, i: u32) -> bool {
    (mask >> i) & 1 == 1
}

impl HandleRights {
    /// The mask as an integer.
    pub closed spec fn view(&self) -> u32 {
        self.bits
    }

    /// Every right in `other` is also in `self`.
    pub open spec fn spec_contains(&self, other: HandleRights) -> bool {
        self@ & other@ == other@
    }

    /// The set without any right.
    pub fn empty() -> (r: HandleRights)
        ensures
            r@ == 0,
    {
        HandleRights { bits: 0 }
    }

    /// The set that holds exactly the rights whose bits are set in `bits`.
    pub fn from_bits(bits: u32) -> (r: HandleRights)
        ensures
            r@ == bits,
    {
        HandleRights { bits }
    }

    /// The set that holds the duplicate right alone.
    pub fn duplicate() -> (r: HandleRights)
        ensures
            r@ == DUPLICATE,
    {
        HandleRights { bits: DUPLICATE }
    }

    /// The set that holds the transfer right alone.
    pub fn transfer() -> (r: HandleRights)
        ensures
            r@ == TRANSFER,
    {
        HandleRights { bits: TRANSFER }
    }

    /// The mask of the set.
    pub fn bits(&self) -> (b: u32)
        ensures
            b == self@,
    {
        self.bits
    }

    /// Whether the set holds no right.
    pub fn is_empty(&self) -> (b: bool)
        ensures
            b == (self@ == 0),
    {
        self.bits == 0
    }

    /// Whether every right in `other` is also in `self`.
    #[verifier::when_used_as_spec(spec_contains)]
    pub fn contains(&self, other: HandleRights) -> (b: bool)
        ensures
            b == self.spec_contains(other),
    {
        self.bits & other.bits == other.bits
    }

    /// The rights that are in `self` or in `other`.
    pub fn union(&self, other: HandleRights) -> (r: HandleRights)
        ensures
            r@ == self@ | other@,
    {
        HandleRights { bits: self.bits | other.bits }
    }

    /// The rights that are in both `self` and `other`.
    pub fn intersection(&self, other: HandleRights) -> (r: HandleRights)
        ensures
            r@ == self@ & other@,
    {
        HandleRights { bits: self.bits & other.bits }
    }
}

/// Two rights sets with the same mask are the same set.
pub proof fn lemma_rights_extensional(a: HandleRights, b: HandleRights)
    requires
        a@ == b@,
    ensures
        a == b,
{
}

/// Bit number `i`, if set in `y`, is set in `x` too.
pub open spec fn bit_kept(x: u32, y: u32, i: u32) -> bool {
    has_bit(y, i) ==> has_bit(x, i)
}

/// `a` contains `b` exactly when no bit of `b` is missing from `a`.
pub proof fn lemma_contains_bitwise(a: HandleRights, b: HandleRights)
    ensures
        a.spec_contains(b) <==> (forall|i: u32| i < 32 ==> #[trigger] bit_kept(a@, b@, i)),
{
    let x = a@;
    let y = b@;
    if x & y == y {
        assert forall|i: u32| i < 32 implies #[trigger] bit_kept(x, y, i) by {
            assert(x & y == y && i < 32 ==> bit_kept(x, y, i)) by (bit_vector);
        }
    }
    if forall|i: u32| i < 32 ==> #[trigger] bit_kept(x, y, i) {
        assert(bit_kept(x, y, 0) && bit_kept(x, y, 1) && bit_kept(x, y, 2) && bit_kept(x, y, 3)
            && bit_kept(x, y, 4) && bit_kept(x, y, 5) && bit_kept(x, y, 6) && bit_kept(x, y, 7)
            && bit_kept(x, y, 8) && bit_kept(x, y, 9) && bit_kept(x, y, 10) && bit_kept(x, y, 11)
            && bit_kept(x, y, 12) && bit_kept(x, y, 13) && bit_kept(x, y, 14) && bit_kept(x, y, 15)
            && bit_kept(x, y, 16) && bit_kept(x, y, 17) && bit_kept(x, y, 18) && bit_kept(x, y, 19)
            && bit_kept(x, y, 20) && bit_kept(x, y, 21) && bit_kept(x, y, 22) && bit_kept(x, y, 23)
            && bit_kept(x, y, 24) && bit_kept(x, y, 25) && bit_kept(x, y, 26) && bit_kept(x, y, 27)
            && bit_kept(x, y, 28) && bit_kept(x, y, 29) && bit_kept(x, y, 30) && bit_kept(x, y, 31)
            ==> x & y == y) by (bit_vector);
    }
}

} // verus!
