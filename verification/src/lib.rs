//! Verified core of the BigOS kernel and of its build tool: CPUID decoding,
//! interrupt-controller programming plans, page-table guard pages, stack and
//! descriptor-table layout, and the parsing that the build tool does on logs.

use vstd::prelude::*;

pub mod apic;
pub mod boot_common;
pub mod cpuinfo;
pub mod gdt;
pub mod interrupts;
pub mod msr;
pub mod stack_guard;
pub mod testing;
pub mod text;
pub mod xtask;

verus! {

/// Base revision of the boot protocol that the kernel asks the bootloader for.
pub const LIMINE_BASE_REVISION: u64 = 5;

/// Virtual address at which the bootloader maps all of physical memory.
pub const HHDM_OFFSET: u64 = 0xFFFF_8000_0000_0000;

/// Number of cores that the kernel supports.
pub const MAX_CORES: u8 = 4;

/// Number of application processors: every supported core but the bootstrap one.
pub const AP_CORE_COUNT: u8 = 3;

} // verus!

