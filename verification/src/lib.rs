//! Core of the Serix kernel: interrupt and privilege infrastructure, virtual
//! memory and user-address-space construction, ELF loading, and the
//! cooperative task executor.
//!
//! Everything here is hardware-independent logic. The thin layer that touches
//! actual CPU state (port I/O, model-specific registers, descriptor-table
//! loads, the assembly trampolines) lives outside this library and drives it
//! with plain values.

pub mod apic;
pub mod arch;
pub mod capability;
pub mod console;
pub mod drivers;
pub mod elf;
pub mod executor;
pub mod gdt;
pub mod heap;
pub mod idt;
pub mod ipc;
pub mod keyboard;
pub mod memory;
pub mod paging;
pub mod pci;
pub mod serial;
pub mod syscall;
pub mod task;
pub mod topology;
pub mod util;
pub mod vfs;
pub mod virtio;
pub mod yield_now;
