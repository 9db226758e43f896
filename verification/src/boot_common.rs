//! Decisions of bringing up the cores: where the ACPI root pointer lies, which
//! application processors to start, and the control-register bits that enable SSE.

use vstd::prelude::*;

verus! {

/// The physical address of the ACPI root pointer that the bootloader reports
/// at virtual address `virt` in the higher-half direct map at `hhdm_offset`.
pub fn rsdp_physical_address(virt: usize, hhdm_offset: u64) -> (r: usize)
    requires
        hhdm_offset <= usize::MAX,
        virt >= hhdm_offset,
    ensures
        r == virt - hhdm_offset,
{
    virt - hhdm_offset as usize
}

/// The core ids of the application processors that the bootstrap core starts
/// when the bootloader reports `core_count` cores: 1 up to `core_count - 1`,
/// each cut to a byte.
pub fn ap_cores_to_bootstrap(core_count: usize) -> (r: Vec<u8>)
    ensures
        r@.len() == if core_count == 0 { 0 } else { core_count - 1 },
        forall|i: int| 0 <= i < r@.len() ==> #[trigger] r@[i] == (i + 1) as u8,
{
    let mut ids: Vec<u8> = Vec::new();
    if core_count == 0 {
        return ids;
    }
    let mut i: usize = 1;
    while i < core_count
        invariant
            1 <= i <= core_count,
            ids@.len() == i - 1,
            forall|k: int| 0 <= k < ids@.len() ==> #[trigger] ids@[k] == (k + 1) as u8,
        decreases core_count - i,
    {
        ids.push(i as u8);
        i = i + 1;
    }
    ids
}

/// The core id under which an application processor starts (its processor id
/// cut to a byte), or `None` for id 0, which is the bootstrap core's and must
/// not enter the application processors' entry point.
pub fn ap_core_entry_point(processor_id: u32) -> (r: Option<u8>)
    ensures
        r == (if processor_id as u8 == 0 { None } else { Some(processor_id as u8) }),
{
    let proc_id = processor_id as u8;
    if proc_id == 0 {
        None
    } else {
        Some(proc_id)
    }
}

/// CR0 with MP (bit 1, monitor coprocessor) set and EM (bit 2, FPU emulation)
/// cleared, and CR4 with OSFXSR (bit 9) and OSXMMEXCPT (bit 10) set: the
/// control registers that let a core run SSE code.
pub fn enable_sse_for_current_core(cr0: u64, cr4: u64) -> (r: (u64, u64))
    ensures
        r.0 == (cr0 | 0x2) & !0x4u64,
        r.1 == cr4 | 0x600,
{
    ((cr0 | 0x2) & !0x4u64, cr4 | 0x600)
}

/// After enabling SSE, MP is set, EM is clear, and OSFXSR and OSXMMEXCPT are
/// set; every other bit of both registers is kept.
pub proof fn lemma_sse_bits(cr0: u64, cr4: u64)
    ensures
        ((cr0 | 0x2) & !0x4u64) & 0x2 == 0x2,
        ((cr0 | 0x2) & !0x4u64) & 0x4 == 0,
        ((cr0 | 0x2) & !0x4u64) & !0x6u64 == cr0 & !0x6u64,
        (cr4 | 0x600) & 0x600 == 0x600,
        (cr4 | 0x600) & !0x600u64 == cr4 & !0x600u64,
{
    assert(((cr0 | 0x2) & !0x4u64) & 0x2 == 0x2) by (bit_vector);
    assert(((cr0 | 0x2) & !0x4u64) & 0x4 == 0) by (bit_vector);
    assert(((cr0 | 0x2) & !0x4u64) & !0x6u64 == cr0 & !0x6u64) by (bit_vector);
    assert((cr4 | 0x600) & 0x600 == 0x600) by (bit_vector);
    assert((cr4 | 0x600) & !0x600u64 == cr4 & !0x600u64) by (bit_vector);
}

} // verus!
