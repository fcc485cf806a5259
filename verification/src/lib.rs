//! Early bring-up core of a single-core kernel: address-space layout,
//! translation tables, MMU activation, exception vectors, interrupt
//! registration and the boot sequence that ties them together.

pub mod boot;
pub mod descriptor;
pub mod exception;
pub mod irq;
pub mod kernel;
pub mod layout;
pub mod mmu;
pub mod report;
pub mod table;
