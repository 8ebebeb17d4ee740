use kernel_core::object::rights::{DUPLICATE, TRANSFER, TRANSFER_BIT};
use kernel_core::object::{Handle, HandleRights};

#[test]
fn named_rights_have_their_bits() {
    assert_eq!(HandleRights::empty().bits(), 0);
    assert_eq!(HandleRights::duplicate().bits(), 1);
    assert_eq!(HandleRights::transfer().bits(), 2);
    assert_eq!(DUPLICATE, 1);
    assert_eq!(TRANSFER, 2);
    assert_eq!(1u32 << TRANSFER_BIT, TRANSFER);
    assert_eq!(HandleRights::from_bits(0xdead_beef).bits(), 0xdead_beef);
}

#[test]
fn empty_rights_are_empty() {
    assert!(HandleRights::empty().is_empty());
    assert!(HandleRights::from_bits(0).is_empty());
    assert!(!HandleRights::transfer().is_empty());
    assert!(!HandleRights::from_bits(1 << 31).is_empty());
}

#[test]
fn contains_is_the_subset_test() {
    let all = HandleRights::from_bits(0b1110);
    assert!(all.contains(HandleRights::from_bits(0b0110)));
    assert!(all.contains(all));
    assert!(all.contains(HandleRights::empty()));
    assert!(!all.contains(HandleRights::from_bits(0b0001)));
    assert!(!all.contains(HandleRights::from_bits(0b1111)));
    assert!(HandleRights::empty().contains(HandleRights::empty()));
    assert!(!HandleRights::empty().contains(HandleRights::transfer()));
    assert!(HandleRights::from_bits(u32::MAX).contains(HandleRights::from_bits(1 << 31)));
}

#[test]
fn union_and_intersection_work_bit_by_bit() {
    let a = HandleRights::from_bits(0b0110);
    let b = HandleRights::from_bits(0b1100);
    assert_eq!(a.union(b).bits(), 0b1110);
    assert_eq!(a.intersection(b).bits(), 0b0100);
    assert_eq!(a.union(HandleRights::empty()), a);
    assert!(a.intersection(HandleRights::empty()).is_empty());
    assert_eq!(HandleRights::transfer().union(HandleRights::duplicate()).bits(), 3);
}

#[test]
fn handle_keeps_what_it_was_made_of() {
    let handle = Handle::new(42u64, HandleRights::from_bits(6));
    assert_eq!(*handle.object(), 42);
    assert_eq!(handle.rights().bits(), 6);
    assert_eq!(handle.into_object(), 42);
}

#[test]
fn handle_duplicate_narrows_but_never_widens() {
    let handle = Handle::new(7u32, HandleRights::from_bits(0b0110));
    let same = handle.duplicate(HandleRights::from_bits(0b0110)).unwrap();
    assert_eq!(same.rights().bits(), 0b0110);
    assert_eq!(*same.object(), 7);
    let less = handle.duplicate(HandleRights::from_bits(0b0100)).unwrap();
    assert_eq!(less.rights().bits(), 0b0100);
    let none = handle.duplicate(HandleRights::empty()).unwrap();
    assert!(none.rights().is_empty());
    assert!(handle.duplicate(HandleRights::from_bits(0b0111)).is_none());
    assert!(handle.duplicate(HandleRights::from_bits(0b1000)).is_none());
    assert!(less.duplicate(HandleRights::from_bits(0b0110)).is_none());
    assert_eq!(handle.rights().bits(), 0b0110);
}

#[test]
fn handle_duplicate_does_not_ask_for_transfer() {
    let handle = Handle::new(7u32, HandleRights::from_bits(4));
    assert!(handle.duplicate(HandleRights::from_bits(4)).is_some());
}
