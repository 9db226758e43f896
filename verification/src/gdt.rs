//! Per-core kernel stacks with guard pages and the bounds that the kernel
//! checks, the global descriptor table of each core, and the frame through
//! which the kernel enters user mode.

use vstd::prelude::*;
use crate::MAX_CORES;
use x86_64::structures::gdt::{Descriptor, GlobalDescriptorTable};
use x86_64::structures::paging::{PhysFrame, Size4KiB};
use x86_64::structures::tss::TaskStateSegment;
use x86_64::{PhysAddr, VirtAddr};

verus! {

/// Size of a page.
pub const PAGE_SIZE: u64 = 4096;

/// Size of each per-core kernel stack (32 KiB).
pub const PER_CORE_STACK_SIZE: u64 = 8 * 4096;

/// Size of a guarded stack slot: the guard page followed by the stack.
pub const GUARDED_STACK_SIZE: u64 = PAGE_SIZE + PER_CORE_STACK_SIZE;

/// Interrupt stack table slot used by the double-fault handler.
pub const DOUBLE_FAULT_IST_INDEX: u16 = 0;

/// A kernel stack preceded by a guard page that is left unmapped, so that an
/// overflow faults instead of corrupting memory. The kernel lays the slots out
/// in memory guard page first, each slot page-aligned, in arrays of one slot
/// per core; the address functions below compute on that layout.
pub struct GuardedKernelStack {
    pub guard: [u8; 4096],
    pub stack: [u8; 32768],
}

impl GuardedKernelStack {
    /// A zeroed stack and guard page.
    pub fn new() -> (r: Self)
        ensures
            forall|i: int| 0 <= i < 4096 ==> #[trigger] r.guard@[i] == 0,
            forall|i: int| 0 <= i < 32768 ==> #[trigger] r.stack@[i] == 0,
    {
        GuardedKernelStack { guard: [0u8; 4096], stack: [0u8; 32768] }
    }
}


/// A stack array of every core at `base`: page-aligned, as the kernel lays
/// its stack arrays out, and within the address space.
pub open spec fn stack_array_valid(base: u64) -> bool {
    &&& base % PAGE_SIZE == 0
    &&& base + MAX_CORES as int * GUARDED_STACK_SIZE <= u64::MAX
}

/// The address of the guarded slot of core `core_id` in a stack array at `base`
/// (slots are laid out one after the other, each guard page first).
pub open spec fn slot_start(base: u64, core_id: u8) -> int {
    base + core_id as int * GUARDED_STACK_SIZE
}

fn slot_guard(base: u64, core_id: u8) -> (r: u64)
    requires
        core_id < MAX_CORES,
        stack_array_valid(base),
    ensures
        r == slot_start(base, core_id),
{
    base + core_id as u64 * GUARDED_STACK_SIZE
}

fn slot_bounds(base: u64, core_id: u8) -> (r: (u64, u64))
    requires
        core_id < MAX_CORES,
        stack_array_valid(base),
    ensures
        r.0 == slot_start(base, core_id) + PAGE_SIZE,
        r.1 == slot_start(base, core_id) + GUARDED_STACK_SIZE,
{
    let start = slot_guard(base, core_id);
    (start + PAGE_SIZE, start + GUARDED_STACK_SIZE)
}

/// The top of the ring-0 stack of core `core_id`, in the RSP0 stack array at `rsp0_stacks`.
pub fn rsp0_stack_top(rsp0_stacks: u64, core_id: u8) -> (r: u64)
    requires
        core_id < MAX_CORES,
        stack_array_valid(rsp0_stacks),
    ensures
        r == slot_start(rsp0_stacks, core_id) + GUARDED_STACK_SIZE,
        r % PAGE_SIZE == 0,
{
    proof {
        lemma_slot_layout(rsp0_stacks, core_id);
    }
    slot_bounds(rsp0_stacks, core_id).1
}

/// The top of the double-fault stack of core `core_id`, in the IST0 stack array at `ist0_stacks`.
pub fn ist0_stack_top(ist0_stacks: u64, core_id: u8) -> (r: u64)
    requires
        core_id < MAX_CORES,
        stack_array_valid(ist0_stacks),
    ensures
        r == slot_start(ist0_stacks, core_id) + GUARDED_STACK_SIZE,
        r % PAGE_SIZE == 0,
{
    proof {
        lemma_slot_layout(ist0_stacks, core_id);
    }
    slot_bounds(ist0_stacks, core_id).1
}

/// The stack pointers that a core's task state segment holds.
#[derive(Clone, Copy, PartialEq, Eq, Structural)]
pub struct TssStacks {
    /// Slot 0 of the privilege stack table: where the CPU switches to on entering ring 0.
    pub privilege_stack_0: u64,
    /// The interrupt stack table slot of the double-fault stack.
    pub double_fault_index: u16,
    /// The top of the double-fault stack.
    pub double_fault_stack: u64,
}

/// What core `core_id`'s task state segment holds: the top of its ring-0
/// stack in privilege slot 0, and the top of its double-fault stack in
/// interrupt stack slot `DOUBLE_FAULT_IST_INDEX`.
pub fn tss_stacks(rsp0_stacks: u64, ist0_stacks: u64, core_id: u8) -> (r: TssStacks)
    requires
        core_id < MAX_CORES,
        stack_array_valid(rsp0_stacks),
        stack_array_valid(ist0_stacks),
    ensures
        r.privilege_stack_0 == slot_start(rsp0_stacks, core_id) + GUARDED_STACK_SIZE,
        r.double_fault_index == DOUBLE_FAULT_IST_INDEX,
        r.double_fault_stack == slot_start(ist0_stacks, core_id) + GUARDED_STACK_SIZE,
{
    TssStacks {
        privilege_stack_0: rsp0_stack_top(rsp0_stacks, core_id),
        double_fault_index: DOUBLE_FAULT_IST_INDEX,
        double_fault_stack: ist0_stack_top(ist0_stacks, core_id),
    }
}

/// The guard page below the ring-0 stack of core `core_id`.
pub fn rsp0_guard_page(rsp0_stacks: u64, core_id: u8) -> (r: u64)
    requires
        core_id < MAX_CORES,
        stack_array_valid(rsp0_stacks),
    ensures
        r == slot_start(rsp0_stacks, core_id),
        r % PAGE_SIZE == 0,
{
    proof {
        lemma_slot_layout(rsp0_stacks, core_id);
    }
    slot_guard(rsp0_stacks, core_id)
}

/// The guard page below the double-fault stack of core `core_id`.
pub fn ist0_guard_page(ist0_stacks: u64, core_id: u8) -> (r: u64)
    requires
        core_id < MAX_CORES,
        stack_array_valid(ist0_stacks),
    ensures
        r == slot_start(ist0_stacks, core_id),
        r % PAGE_SIZE == 0,
{
    proof {
        lemma_slot_layout(ist0_stacks, core_id);
    }
    slot_guard(ist0_stacks, core_id)
}

/// The bottom and top of the ring-0 stack of core `core_id`.
pub fn rsp0_bounds(rsp0_stacks: u64, core_id: u8) -> (r: (u64, u64))
    requires
        core_id < MAX_CORES,
        stack_array_valid(rsp0_stacks),
    ensures
        r.0 == slot_start(rsp0_stacks, core_id) + PAGE_SIZE,
        r.1 == slot_start(rsp0_stacks, core_id) + GUARDED_STACK_SIZE,
        r.0 % PAGE_SIZE == 0,
        r.1 % PAGE_SIZE == 0,
        r.1 - r.0 == PER_CORE_STACK_SIZE,
{
    proof {
        lemma_slot_layout(rsp0_stacks, core_id);
    }
    slot_bounds(rsp0_stacks, core_id)
}

/// The bottom and top of the double-fault stack of core `core_id`.
pub fn ist0_bounds(ist0_stacks: u64, core_id: u8) -> (r: (u64, u64))
    requires
        core_id < MAX_CORES,
        stack_array_valid(ist0_stacks),
    ensures
        r.0 == slot_start(ist0_stacks, core_id) + PAGE_SIZE,
        r.1 == slot_start(ist0_stacks, core_id) + GUARDED_STACK_SIZE,
        r.0 % PAGE_SIZE == 0,
        r.1 % PAGE_SIZE == 0,
        r.1 - r.0 == PER_CORE_STACK_SIZE,
{
    proof {
        lemma_slot_layout(ist0_stacks, core_id);
    }
    slot_bounds(ist0_stacks, core_id)
}

/// Whether a stack pointer lies within stack bounds (bottom and top included).
pub fn rsp_in_bounds(rsp: u64, bounds: (u64, u64)) -> (r: bool)
    ensures
        r == (bounds.0 <= rsp && rsp <= bounds.1),
{
    rsp >= bounds.0 && rsp <= bounds.1
}

/// The guard pages that the kernel unmaps, in order: for each core, the one
/// below its ring-0 stack, then the one below its double-fault stack.
pub fn install_guard_pages(rsp0_stacks: u64, ist0_stacks: u64) -> (r: Vec<u64>)
    requires
        stack_array_valid(rsp0_stacks),
        stack_array_valid(ist0_stacks),
    ensures
        r@.len() == 2 * MAX_CORES,
        forall|c: int| 0 <= c < MAX_CORES ==> #[trigger] r@[2 * c] == slot_start(rsp0_stacks, c as u8)
            && r@[2 * c + 1] == slot_start(ist0_stacks, c as u8),
{
    let mut pages: Vec<u64> = Vec::new();
    let mut core_id: u8 = 0;
    while core_id < MAX_CORES
        invariant
            core_id <= MAX_CORES,
            stack_array_valid(rsp0_stacks),
            stack_array_valid(ist0_stacks),
            pages@.len() == 2 * core_id,
            forall|c: int| 0 <= c < core_id ==> #[trigger] pages@[2 * c] == slot_start(rsp0_stacks, c as u8)
                && pages@[2 * c + 1] == slot_start(ist0_stacks, c as u8),
        decreases MAX_CORES - core_id,
    {
        pages.push(rsp0_guard_page(rsp0_stacks, core_id));
        pages.push(ist0_guard_page(ist0_stacks, core_id));
        core_id = core_id + 1;
    }
    pages
}

/// The layout of a core's slot: the guard page sits right below the stack,
/// the stack spans exactly `PER_CORE_STACK_SIZE` bytes, and the guard page,
/// the stack bottom and the stack top are page-aligned.
pub proof fn lemma_slot_layout(base: u64, core_id: u8)
    requires
        core_id < MAX_CORES,
        stack_array_valid(base),
    ensures
        slot_start(base, core_id) + PAGE_SIZE + PER_CORE_STACK_SIZE == slot_start(base, core_id) + GUARDED_STACK_SIZE,
        slot_start(base, core_id) % 4096 == 0,
        (slot_start(base, core_id) + PAGE_SIZE) % 4096 == 0,
        (slot_start(base, core_id) + GUARDED_STACK_SIZE) % 4096 == 0,
{
}

/// The slots of two distinct cores do not overlap: a stack overflow of one core
/// reaches its own guard page before any other core's stack.
pub proof fn lemma_slots_disjoint(base: u64, a: u8, b: u8)
    requires
        a < MAX_CORES,
        b < MAX_CORES,
        a != b,
    ensures
        slot_start(base, a) + GUARDED_STACK_SIZE <= slot_start(base, b)
            || slot_start(base, b) + GUARDED_STACK_SIZE <= slot_start(base, a),
{
}


/// With the ring-0 and double-fault stack arrays apart from each other, no
/// ring-0 slot overlaps a double-fault slot; together with
/// `lemma_slots_disjoint`, all `2 * MAX_CORES` guarded slots are pairwise
/// disjoint.
pub proof fn lemma_stack_arrays_disjoint(rsp0_stacks: u64, ist0_stacks: u64, a: u8, b: u8)
    requires
        a < MAX_CORES,
        b < MAX_CORES,
        rsp0_stacks + MAX_CORES * GUARDED_STACK_SIZE <= ist0_stacks
            || ist0_stacks + MAX_CORES * GUARDED_STACK_SIZE <= rsp0_stacks,
    ensures
        slot_start(rsp0_stacks, a) + GUARDED_STACK_SIZE <= slot_start(ist0_stacks, b)
            || slot_start(ist0_stacks, b) + GUARDED_STACK_SIZE <= slot_start(rsp0_stacks, a),
{
}

/// x86_64's global descriptor table (eight entries), as a type known to the verifier.
#[verifier::external_type_specification]
#[verifier::external_body]
pub struct ExGlobalDescriptorTable<const MAX: usize>(GlobalDescriptorTable<MAX>);

/// x86_64's task state segment, as a type known to the verifier.
#[verifier::external_type_specification]
#[verifier::external_body]
pub struct ExTaskStateSegment(TaskStateSegment);

/// The raw 64-bit entries that a descriptor table holds, the null entry first.
pub uninterp spec fn gdt_entries(table: GlobalDescriptorTable) -> Seq<u64>;

/// The stack pointers that a task state segment holds, as raw addresses: the
/// privilege stack table (three entries), then the interrupt stack table
/// (seven entries).
pub uninterp spec fn tss_stack_pointers(tss: TaskStateSegment) -> Seq<u64>;

/// Whether `addr` is a canonical virtual address: bits 47 to 63 all equal.
pub open spec fn canonical(addr: u64) -> bool {
    addr < 0x8000_0000_0000 || addr >= 0xFFFF_8000_0000_0000
}

/// Stores `top` in slot `index` of the TSS's privilege stack table, through
/// x86_64's `VirtAddr::new`, which keeps a canonical address as it is and
/// panics on any other (the `requires` rules that out). No other stack
/// pointer of the TSS changes.
#[verifier::external_body]
fn set_privilege_stack(tss: &mut TaskStateSegment, index: usize, top: u64)
    requires
        index < 3,
        canonical(top),
    ensures
        tss_stack_pointers(*old(tss)).len() == 10,
        tss_stack_pointers(*final(tss)) == tss_stack_pointers(*old(tss)).update(index as int, top),
{
    tss.privilege_stack_table[index] = VirtAddr::new(top);
}

/// Stores `top` in slot `index` of the TSS's interrupt stack table, through
/// x86_64's `VirtAddr::new` (see `set_privilege_stack`). No other stack
/// pointer of the TSS changes.
#[verifier::external_body]
fn set_interrupt_stack(tss: &mut TaskStateSegment, index: usize, top: u64)
    requires
        index < 7,
        canonical(top),
    ensures
        tss_stack_pointers(*old(tss)).len() == 10,
        tss_stack_pointers(*final(tss)) == tss_stack_pointers(*old(tss)).update(3 + index, top),
{
    tss.interrupt_stack_table[index] = VirtAddr::new(top);
}

/// A segment descriptor: a code or data segment takes one table entry, a
/// system segment (such as a TSS) two.
#[derive(Clone, Copy, PartialEq, Eq, Structural)]
pub enum SegmentDescriptor {
    User(u64),
    System(u64, u64),
}

/// The low entry of a descriptor.
pub open spec fn descriptor_low(d: SegmentDescriptor) -> u64 {
    match d {
        SegmentDescriptor::User(v) => v,
        SegmentDescriptor::System(v, _) => v,
    }
}

/// The privilege level of a descriptor (bits 45 and 46 of its low entry).
pub open spec fn descriptor_dpl(d: SegmentDescriptor) -> u64 {
    (descriptor_low(d) >> 45u64) & 3
}

/// The number of table entries that a descriptor takes.
pub open spec fn descriptor_size(d: SegmentDescriptor) -> nat {
    match d {
        SegmentDescriptor::User(_) => 1,
        SegmentDescriptor::System(_, _) => 2,
    }
}

/// The entries that a descriptor adds to a table.
pub open spec fn descriptor_entries(d: SegmentDescriptor) -> Seq<u64> {
    match d {
        SegmentDescriptor::User(v) => seq![v],
        SegmentDescriptor::System(low, high) => seq![low, high],
    }
}

/// The selector of the descriptor at table index `index`, requested at privilege level `rpl`.
pub open spec fn selector(index: nat, rpl: u64) -> u16 {
    ((index * 8) + rpl) as u16
}

/// x86_64's `GlobalDescriptorTable::new`: an eight-entry table that holds only
/// the null entry.
#[verifier::external_body]
fn gdt_new() -> (r: GlobalDescriptorTable)
    ensures
        gdt_entries(r) == seq![0u64],
{
    GlobalDescriptorTable::new()
}

/// x86_64's `GlobalDescriptorTable::append`: adds the descriptor's entries at
/// the end of the table and returns its selector, whose index is the table's
/// former length and whose requested privilege level is the descriptor's DPL.
/// It panics when the table has no room (eight entries at most), which the
/// `requires` rules out.
#[verifier::external_body]
fn gdt_append(table: &mut GlobalDescriptorTable, d: SegmentDescriptor) -> (sel: u16)
    requires
        gdt_entries(*old(table)).len() + descriptor_size(d) <= 8,
    ensures
        gdt_entries(*final(table)) == gdt_entries(*old(table)) + descriptor_entries(d),
        sel == selector(gdt_entries(*old(table)).len(), descriptor_dpl(d)),
{
    let descriptor = match d {
        SegmentDescriptor::User(v) => Descriptor::UserSegment(v),
        SegmentDescriptor::System(low, high) => Descriptor::SystemSegment(low, high),
    };
    table.append(descriptor).0
}

/// x86_64's `Descriptor::kernel_code_segment`: the flat 64-bit ring-0 code segment.
#[verifier::external_body]
fn kernel_code_segment() -> (r: SegmentDescriptor)
    ensures
        r == SegmentDescriptor::User(0x00af9b000000ffff),
{
    match Descriptor::kernel_code_segment() {
        Descriptor::UserSegment(v) => SegmentDescriptor::User(v),
        Descriptor::SystemSegment(low, high) => SegmentDescriptor::System(low, high),
    }
}

/// x86_64's `Descriptor::kernel_data_segment`: the flat ring-0 data segment.
#[verifier::external_body]
fn kernel_data_segment() -> (r: SegmentDescriptor)
    ensures
        r == SegmentDescriptor::User(0x00cf93000000ffff),
{
    match Descriptor::kernel_data_segment() {
        Descriptor::UserSegment(v) => SegmentDescriptor::User(v),
        Descriptor::SystemSegment(low, high) => SegmentDescriptor::System(low, high),
    }
}

/// x86_64's `Descriptor::user_data_segment`: the flat ring-3 data segment.
#[verifier::external_body]
fn user_data_segment() -> (r: SegmentDescriptor)
    ensures
        r == SegmentDescriptor::User(0x00cff3000000ffff),
{
    match Descriptor::user_data_segment() {
        Descriptor::UserSegment(v) => SegmentDescriptor::User(v),
        Descriptor::SystemSegment(low, high) => SegmentDescriptor::System(low, high),
    }
}

/// x86_64's `Descriptor::user_code_segment`: the flat 64-bit ring-3 code segment.
#[verifier::external_body]
fn user_code_segment() -> (r: SegmentDescriptor)
    ensures
        r == SegmentDescriptor::User(0x00affb000000ffff),
{
    match Descriptor::user_code_segment() {
        Descriptor::UserSegment(v) => SegmentDescriptor::User(v),
        Descriptor::SystemSegment(low, high) => SegmentDescriptor::System(low, high),
    }
}

/// x86_64's `Descriptor::tss_segment`: a system descriptor (two entries) for the
/// TSS, present, of type "available 64-bit TSS", at privilege level 0. The
/// base and limit fields hold the TSS's address and size; the address depends
/// on where the TSS lies, and is left unsaid.
#[verifier::external_body]
pub(crate) fn tss_segment(tss: &'static TaskStateSegment) -> (r: SegmentDescriptor)
    ensures
        r is System,
        descriptor_dpl(r) == 0,
        (descriptor_low(r) >> 40u64) & 0xF == 0b1001,
        (descriptor_low(r) >> 47u64) & 1 == 1,
{
    match Descriptor::tss_segment(tss) {
        Descriptor::UserSegment(v) => SegmentDescriptor::User(v),
        Descriptor::SystemSegment(low, high) => SegmentDescriptor::System(low, high),
    }
}

/// The descriptor table of one core, with the selectors of its segments.
pub struct Gdt {
    pub table: GlobalDescriptorTable,
    pub kernel_code_selector: u16,
    pub kernel_data_selector: u16,
    pub user_code_selector: u16,
    pub user_data_selector: u16,
    pub tss_selector: u16,
}

/// The selectors that every core's table gives its segments: kernel code 0x08,
/// kernel data 0x10, user data 0x1B, user code 0x23, and the TSS 0x28.
pub open spec fn standard_selectors(g: Gdt) -> bool {
    &&& g.kernel_code_selector == 0x08
    &&& g.kernel_data_selector == 0x10
    &&& g.user_data_selector == 0x1B
    &&& g.user_code_selector == 0x23
    &&& g.tss_selector == 0x28
}

impl Gdt {
    /// The table that holds a placeholder code segment where the TSS goes,
    /// used before a core's own table is built.
    pub fn empty() -> (g: Gdt)
        ensures
            standard_selectors(g),
            gdt_entries(g.table) == seq![
                0u64,
                0x00af9b000000ffffu64,
                0x00cf93000000ffffu64,
                0x00cff3000000ffffu64,
                0x00affb000000ffffu64,
                0x00af9b000000ffffu64,
            ],
    {
        let mut table = gdt_new();
        let kernel_code_selector = gdt_append(&mut table, kernel_code_segment());
        let kernel_data_selector = gdt_append(&mut table, kernel_data_segment());
        let user_data_selector = gdt_append(&mut table, user_data_segment());
        let user_code_selector = gdt_append(&mut table, user_code_segment());
        let tss_selector = gdt_append(&mut table, kernel_code_segment());
        assert(0x00af9b000000ffffu64 >> 45u64 & 3 == 0) by (bit_vector);
        assert(0x00cf93000000ffffu64 >> 45u64 & 3 == 0) by (bit_vector);
        assert(0x00cff3000000ffffu64 >> 45u64 & 3 == 3) by (bit_vector);
        assert(0x00affb000000ffffu64 >> 45u64 & 3 == 3) by (bit_vector);
        let g = Gdt {
            table,
            kernel_code_selector,
            kernel_data_selector,
            user_code_selector,
            user_data_selector,
            tss_selector,
        };
        assert(gdt_entries(g.table) =~= seq![
            0u64,
            0x00af9b000000ffffu64,
            0x00cf93000000ffffu64,
            0x00cff3000000ffffu64,
            0x00affb000000ffffu64,
            0x00af9b000000ffffu64,
        ]);
        g
    }

    /// A core's table. First the core's TSS gets its stacks: the top of the
    /// ring-0 stack in privilege slot 0 and the top of the double-fault stack
    /// in its interrupt stack slot, every other stack pointer as it was. Then
    /// the table: null, kernel code, kernel data, user data, user code, and
    /// the descriptor of that TSS (two entries): an available 64-bit TSS,
    /// present, at privilege level 0.
    pub fn new(tss: &'static mut TaskStateSegment, stacks: TssStacks) -> (g: Gdt)
        requires
            stacks.double_fault_index < 7,
            canonical(stacks.privilege_stack_0),
            canonical(stacks.double_fault_stack),
        ensures
            tss_stack_pointers(*final(tss)) == tss_stack_pointers(*old(tss)).update(0, stacks.privilege_stack_0).update(
                3 + stacks.double_fault_index,
                stacks.double_fault_stack,
            ),
            standard_selectors(g),
            gdt_entries(g.table).len() == 7,
            gdt_entries(g.table).subrange(0, 5) == seq![
                0u64,
                0x00af9b000000ffffu64,
                0x00cf93000000ffffu64,
                0x00cff3000000ffffu64,
                0x00affb000000ffffu64,
            ],
            (gdt_entries(g.table)[5] >> 40u64) & 0xF == 0b1001,
            (gdt_entries(g.table)[5] >> 47u64) & 1 == 1,
            (gdt_entries(g.table)[5] >> 45u64) & 3 == 0,
    {
        let mut table = gdt_new();
        let kernel_code_selector = gdt_append(&mut table, kernel_code_segment());
        let kernel_data_selector = gdt_append(&mut table, kernel_data_segment());
        let user_data_selector = gdt_append(&mut table, user_data_segment());
        let user_code_selector = gdt_append(&mut table, user_code_segment());
        set_privilege_stack(tss, 0, stacks.privilege_stack_0);
        set_interrupt_stack(tss, stacks.double_fault_index as usize, stacks.double_fault_stack);
        let tss: &'static TaskStateSegment = tss;
        let tss_descriptor = tss_segment(tss);
        let tss_selector = gdt_append(&mut table, tss_descriptor);
        assert(0x00af9b000000ffffu64 >> 45u64 & 3 == 0) by (bit_vector);
        assert(0x00cf93000000ffffu64 >> 45u64 & 3 == 0) by (bit_vector);
        assert(0x00cff3000000ffffu64 >> 45u64 & 3 == 3) by (bit_vector);
        assert(0x00affb000000ffffu64 >> 45u64 & 3 == 3) by (bit_vector);
        let g = Gdt {
            table,
            kernel_code_selector,
            kernel_data_selector,
            user_code_selector,
            user_data_selector,
            tss_selector,
        };
        assert(gdt_entries(g.table).subrange(0, 5) =~= seq![
            0u64,
            0x00af9b000000ffffu64,
            0x00cf93000000ffffu64,
            0x00cff3000000ffffu64,
            0x00affb000000ffffu64,
        ]);
        g
    }
}

/// The frame that `iretq` pops to enter user mode.
#[derive(Clone, Copy, PartialEq, Eq, Structural)]
pub struct IretFrame {
    pub rip: u64,
    pub cs: u64,
    pub rflags: u64,
    pub rsp: u64,
    pub ss: u64,
}

/// RFLAGS in user mode: interrupts enabled (bit 9) and the reserved bit 1.
pub const USER_RFLAGS: u64 = 0x202;

/// The frame that enters user mode at `entry_point` with stack `stack_pointer`,
/// on the user code and data segments of the core's table.
pub fn jump_to_userspace(g: &Gdt, entry_point: u64, stack_pointer: u64) -> (r: IretFrame)
    ensures
        r == (IretFrame {
            rip: entry_point,
            cs: g.user_code_selector as u64,
            rflags: USER_RFLAGS,
            rsp: stack_pointer,
            ss: g.user_data_selector as u64,
        }),
{
    IretFrame {
        rip: entry_point,
        cs: g.user_code_selector as u64,
        rflags: USER_RFLAGS,
        rsp: stack_pointer,
        ss: g.user_data_selector as u64,
    }
}

/// What the kernel needs to start a process: its entry point, its stack
/// pointer, and the physical address of its top-level page table.
#[derive(Clone, Copy, PartialEq, Eq, Structural)]
pub struct ExecutionContext {
    pub rip: u64,
    pub rsp: u64,
    pub page_table_base_phys: u64,
}

/// How the kernel enters a process: it loads CR3 with `page_table_frame`, then
/// pops `frame` with `iretq`.
#[derive(Clone, Copy, PartialEq, Eq, Structural)]
pub struct ProcessEntry {
    pub page_table_frame: u64,
    pub frame: IretFrame,
}

/// x86_64's `PhysFrame::<Size4KiB>::containing_address` on `PhysAddr::new(phys)`,
/// read back with `start_address().as_u64()`: `phys` aligned down to 4096.
/// `PhysAddr::new` panics when a bit from 52 up is set.
#[verifier::external_body]
fn containing_frame_start(phys: u64) -> (r: u64)
    requires
        phys < 0x10_0000_0000_0000,
    ensures
        r == phys & !0xFFFu64,
{
    PhysFrame::<Size4KiB>::containing_address(PhysAddr::new(phys)).start_address().as_u64()
}

/// How the kernel starts the process `ctx` directly on the core whose table
/// is `g`: switch to the 4 KiB frame that holds the process's page table, and
/// enter user mode at its entry point on its stack.
pub fn execute_process_direct(ctx: &ExecutionContext, g: &Gdt) -> (r: ProcessEntry)
    requires
        ctx.page_table_base_phys < 0x10_0000_0000_0000,
    ensures
        r.page_table_frame == ctx.page_table_base_phys & !0xFFFu64,
        r.frame == (IretFrame {
            rip: ctx.rip,
            cs: g.user_code_selector as u64,
            rflags: USER_RFLAGS,
            rsp: ctx.rsp,
            ss: g.user_data_selector as u64,
        }),
{
    ProcessEntry {
        page_table_frame: containing_frame_start(ctx.page_table_base_phys),
        frame: jump_to_userspace(g, ctx.rip, ctx.rsp),
    }
}

/// The layout that `syscall` and `sysret` rely on: kernel data right after
/// kernel code, user code right after user data, and ring-3 selectors for
/// the user segments.
pub proof fn lemma_selector_layout(g: Gdt)
    requires
        standard_selectors(g),
    ensures
        g.kernel_data_selector == g.kernel_code_selector + 8,
        g.user_code_selector == g.user_data_selector + 8,
        g.user_data_selector & 3 == 3,
        g.user_code_selector & 3 == 3,
        g.kernel_code_selector & 3 == 0,
        g.kernel_data_selector & 3 == 0,
{
    assert(0x1Bu16 & 3 == 3) by (bit_vector);
    assert(0x23u16 & 3 == 3) by (bit_vector);
    assert(0x08u16 & 3 == 0) by (bit_vector);
    assert(0x10u16 & 3 == 0) by (bit_vector);
}

} // verus!
