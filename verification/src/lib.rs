//! Kernel-object and interrupt-dispatch core of a microkernel that runs
//! sandboxed guest instances.
//!
//! * [`object`] holds the capability side: rights masks, handles and the
//!   per-process handle table.
//! * [`abi`] holds the interrupt side: the redirection table that maps each
//!   hardware vector to a guest handler, and the installation procedure.
//!
//! Pointers never enter this crate. A guest function, a guest context and a
//! kernel object reference are carried as plain values chosen by the caller.

pub mod abi;
pub mod error;
pub mod object;
