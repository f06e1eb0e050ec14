//! A verified model of a small RISC-V machine-mode firmware: the supervisor
//! call dispatcher, the inter-hart interrupt protocol, the boot coordination
//! of several harts, device-tree relocation and fix-up, and the trap-frame
//! discipline of the trap gateway.
pub mod boot;
pub mod clint;
pub mod ipi;
pub mod mem;
pub mod mmio;
pub mod platform;
pub mod pmp;
pub mod sbi;
pub mod serial;
pub mod trap;
pub mod tree;
pub mod uart;
