//! Services the kernel offers to guest instances.

pub mod irq;
