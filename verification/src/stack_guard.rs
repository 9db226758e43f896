//! Unmapping the guard page below a kernel stack: the walk of the four-level
//! page table that the kernel performs, as a state machine whose reads,
//! allocations and writes the caller carries out on the real tables.

use vstd::prelude::*;

verus! {

/// The bits of a page-table entry that hold the physical address.
pub const PHYS_ADDR_MASK: u64 = 0x000f_ffff_ffff_f000;

/// Entry flag: present.
pub const PRESENT: u64 = 0x1;

/// Entry flag: writable.
pub const WRITABLE: u64 = 0x2;

/// Entry flag: the entry maps a huge page (2 MiB in a page directory, 1 GiB in a PDPT).
pub const HUGE_PAGE: u64 = 0x80;

/// Number of entries of a page table.
pub const ENTRY_COUNT: u64 = 512;

/// The physical address that an entry holds.
pub open spec fn entry_addr(entry: u64) -> u64 {
    entry & PHYS_ADDR_MASK
}

/// The flags of an entry: every bit outside the address.
pub open spec fn entry_flags(entry: u64) -> u64 {
    entry & !PHYS_ADDR_MASK
}

/// Whether an entry has the huge-page flag.
pub open spec fn entry_huge(entry: u64) -> bool {
    entry_flags(entry) & HUGE_PAGE == HUGE_PAGE
}

/// The index into the table of the level whose index starts at bit `shift` of `vaddr`.
pub open spec fn table_index(vaddr: u64, shift: u64) -> u64 {
    (vaddr >> shift) & 0x1FF
}

/// Index into the PML4 (bits 39..48).
pub open spec fn p4_index(vaddr: u64) -> u64 {
    table_index(vaddr, 39)
}

/// Index into the PDPT (bits 30..39).
pub open spec fn pdpt_index(vaddr: u64) -> u64 {
    table_index(vaddr, 30)
}

/// Index into the page directory (bits 21..30).
pub open spec fn pd_index(vaddr: u64) -> u64 {
    table_index(vaddr, 21)
}

/// Index into the page table (bits 12..21).
pub open spec fn pt_index(vaddr: u64) -> u64 {
    table_index(vaddr, 12)
}

/// The four table indices of an address are its four 9-bit fields: bits 39
/// to 47 index the PML4, 30 to 38 the PDPT, 21 to 29 the page directory and
/// 12 to 20 the page table, so that with the page offset they make up the
/// low 48 bits of the address.
pub proof fn lemma_table_indices(vaddr: u64)
    ensures
        p4_index(vaddr) == (vaddr / 0x80_0000_0000) % 512,
        pdpt_index(vaddr) == (vaddr / 0x4000_0000) % 512,
        pd_index(vaddr) == (vaddr / 0x20_0000) % 512,
        pt_index(vaddr) == (vaddr / 0x1000) % 512,
        p4_index(vaddr) * 0x80_0000_0000 + pdpt_index(vaddr) * 0x4000_0000 + pd_index(vaddr) * 0x20_0000
            + pt_index(vaddr) * 0x1000 + vaddr % 0x1000 == vaddr % 0x1_0000_0000_0000,
{
    assert((vaddr >> 39u64) & 0x1FF == (vaddr / 0x80_0000_0000) % 512 && (vaddr >> 30u64) & 0x1FF == (vaddr
        / 0x4000_0000) % 512 && (vaddr >> 21u64) & 0x1FF == (vaddr / 0x20_0000) % 512 && (vaddr >> 12u64)
        & 0x1FF == (vaddr / 0x1000) % 512 && ((vaddr >> 39u64) & 0x1FF) * 0x80_0000_0000 + ((vaddr >> 30u64)
        & 0x1FF) * 0x4000_0000 + ((vaddr >> 21u64) & 0x1FF) * 0x20_0000 + ((vaddr >> 12u64) & 0x1FF) * 0x1000
        + vaddr % 0x1000 == vaddr % 0x1_0000_0000_0000) by (bit_vector);
}

/// The index into the table of the level whose index starts at bit `shift` of `vaddr`.
fn index_at(vaddr: u64, shift: u64) -> (r: u64)
    requires
        shift < 64,
    ensures
        r == table_index(vaddr, shift),
        r < ENTRY_COUNT,
{
    assert((vaddr >> shift) & 0x1FF < 512) by (bit_vector);
    (vaddr >> shift) & 0x1FF
}

/// Why a guard page could not be unmapped.
#[derive(Clone, Copy, PartialEq, Eq, Structural)]
pub enum GuardError {
    P4Unused,
    PdptUnused,
    PdptHuge,
    PdUnused,
    OutOfFrames,
    PtUnused,
}

/// The message that the kernel logs for a guard error.
pub open spec fn guard_error_message(e: GuardError) -> Seq<char> {
    match e {
        GuardError::P4Unused => "p4 entry unused"@,
        GuardError::PdptUnused => "pdpt entry unused"@,
        GuardError::PdptHuge => "pdpt huge page not supported for guard"@,
        GuardError::PdUnused => "pd entry unused"@,
        GuardError::OutOfFrames => "out of frames for PT split"@,
        GuardError::PtUnused => "pt entry already unused (guard already unmapped?)"@,
    }
}

impl GuardError {
    /// The message that the kernel logs for the error.
    pub fn message(&self) -> (r: &'static str)
        ensures
            r@ == guard_error_message(*self),
    {
        match self {
            GuardError::P4Unused => "p4 entry unused",
            GuardError::PdptUnused => "pdpt entry unused",
            GuardError::PdptHuge => "pdpt huge page not supported for guard",
            GuardError::PdUnused => "pd entry unused",
            GuardError::OutOfFrames => "out of frames for PT split",
            GuardError::PtUnused => "pt entry already unused (guard already unmapped?)",
        }
    }
}

/// Where the walk stands.
#[derive(Clone, Copy, PartialEq, Eq, Structural)]
pub enum GuardWalkState {
    /// Waiting for the PML4 entry of the guard page, from the PML4 at `table`.
    AtPml4 { table: u64 },
    /// Waiting for the PDPT entry, from the PDPT at `table`.
    AtPdpt { table: u64 },
    /// Waiting for the page-directory entry, from the directory at `table`.
    AtPd { table: u64 },
    /// Waiting for the page-table entry, from the table at `table`.
    AtPt { table: u64 },
    /// The directory entry at `pd_table` maps a 2 MiB page (`huge_entry`); waiting for a frame to split it into.
    AwaitingFrame { pd_table: u64, huge_entry: u64 },
    /// The walk is over.
    Finished,
}

/// What the caller does next.
pub enum GuardStep {
    /// Read entry `index` of the table at physical address `table`, and hand it to `on_entry`.
    ReadEntry { table: u64, index: u64 },
    /// Allocate a frame for a new page table, and hand it (or its absence) to `on_frame`.
    AllocateFrame,
    /// Fill the new page table at `pt` with `entries`, set entry `pd_index`
    /// of the directory at `pd_table` to `pd_entry`, and flush the whole TLB. Done.
    InstallSplit { pt: u64, entries: Vec<u64>, pd_table: u64, pd_index: u64, pd_entry: u64 },
    /// Clear entry `index` of the page table at `table` and flush `vaddr` from the TLB. Done.
    ClearEntry { table: u64, index: u64, vaddr: u64 },
    /// The guard page cannot be unmapped. Done.
    Failed(GuardError),
}

/// The walk that unmaps the guard page at `vaddr`.
pub struct GuardWalk {
    pub vaddr: u64,
    pub state: GuardWalkState,
}

/// The flags of the 4 KiB entries that replace a 2 MiB entry: the huge entry's
/// flags without the huge-page flag, and present.
pub open spec fn split_flags(huge_entry: u64) -> u64 {
    (entry_flags(huge_entry) & !HUGE_PAGE) | PRESENT
}

/// The entries of the page table that replaces a 2 MiB mapping: entry `i` maps
/// the `i`-th 4 KiB frame of the huge page, except entry `guard`, which is unused.
pub open spec fn split_entries(huge_entry: u64, guard: u64) -> Seq<u64> {
    Seq::new(
        ENTRY_COUNT as nat,
        |i: int|
            if i == guard {
                0u64
            } else {
                ((entry_addr(huge_entry) + i * 4096) as u64) | split_flags(huge_entry)
            },
    )
}

/// Splitting the 2 MiB entry goes through without a panic: the virtual
/// addresses of its frames (`VirtAddr::new`) are canonical and their physical
/// addresses (`PhysAddr::new`) stay below 2^52.
pub open spec fn split_addresses_valid(huge_entry: u64) -> bool {
    &&& (entry_addr(huge_entry) & !0x1FFFFFu64) + 511 * 4096 < 0x8000_0000_0000
    &&& entry_addr(huge_entry) + 511 * 4096 < 0x10_0000_0000_0000
}

/// Whether splitting the 2 MiB entry goes through (see `split_addresses_valid`).
pub fn split_is_valid(huge_entry: u64) -> (r: bool)
    ensures
        r == split_addresses_valid(huge_entry),
{
    let base = huge_entry & PHYS_ADDR_MASK;
    assert(base <= PHYS_ADDR_MASK) by (bit_vector)
        requires
            base == huge_entry & PHYS_ADDR_MASK,
    ;
    assert(base & !0x1FFFFFu64 <= base) by (bit_vector);
    (base & !0x1FFFFFu64) + 511 * 4096 < 0x8000_0000_0000 && base + 511 * 4096 < 0x10_0000_0000_0000
}

/// The entries of the page table that replaces the 2 MiB mapping `huge_entry`,
/// with entry `guard` left unused.
pub fn split_huge_entry(huge_entry: u64, guard: u64) -> (r: Vec<u64>)
    requires
        split_addresses_valid(huge_entry),
    ensures
        r@ == split_entries(huge_entry, guard),
{
    let base = huge_entry & PHYS_ADDR_MASK;
    let flags = (huge_entry & !PHYS_ADDR_MASK & !HUGE_PAGE) | PRESENT;
    assert(flags == split_flags(huge_entry)) by (bit_vector)
        requires
            flags == (huge_entry & !PHYS_ADDR_MASK & !HUGE_PAGE) | PRESENT,
    ;
    let mut entries: Vec<u64> = Vec::new();
    let mut i: u64 = 0;
    while i < ENTRY_COUNT
        invariant
            i <= ENTRY_COUNT,
            base == entry_addr(huge_entry),
            flags == split_flags(huge_entry),
            split_addresses_valid(huge_entry),
            entries@.len() == i,
            forall|k: int| 0 <= k < i ==> #[trigger] entries@[k] == ((base + k * 4096) as u64) | flags,
        decreases ENTRY_COUNT - i,
    {
        let phys = base + i * 4096;
        entries.push(phys | flags);
        i = i + 1;
    }
    let mut r: Vec<u64> = Vec::new();
    let mut k: usize = 0;
    while k < entries.len()
        invariant
            entries@.len() == ENTRY_COUNT,
            base == entry_addr(huge_entry),
            flags == split_flags(huge_entry),
            forall|j: int| 0 <= j < ENTRY_COUNT ==> #[trigger] entries@[j] == ((base + j * 4096) as u64) | flags,
            k <= entries@.len(),
            r@.len() == k,
            forall|j: int| 0 <= j < k ==> #[trigger] r@[j] == (if j == guard { 0u64 } else { entries@[j] }),
        decreases entries.len() - k,
    {
        if k as u64 == guard {
            r.push(0);
        } else {
            r.push(entries[k]);
        }
        k = k + 1;
    }
    assert(r@ =~= split_entries(huge_entry, guard));
    r
}


/// The walk's answer to entry `entry`, read where `state` asked for it: `next`
/// is the next state and `step` what the caller does next.
pub open spec fn entry_step_matches(vaddr: u64, state: GuardWalkState, entry: u64, next: GuardWalkState, step: GuardStep) -> bool {
    match state {
        GuardWalkState::AtPml4 { table } => if entry == 0 {
            next == GuardWalkState::Finished && step == GuardStep::Failed(GuardError::P4Unused)
        } else {
            next == (GuardWalkState::AtPdpt { table: entry_addr(entry) })
                && step == (GuardStep::ReadEntry { table: entry_addr(entry), index: pdpt_index(vaddr) })
        },
        GuardWalkState::AtPdpt { table } => if entry == 0 {
            next == GuardWalkState::Finished && step == GuardStep::Failed(GuardError::PdptUnused)
        } else if entry_huge(entry) {
            next == GuardWalkState::Finished && step == GuardStep::Failed(GuardError::PdptHuge)
        } else {
            next == (GuardWalkState::AtPd { table: entry_addr(entry) })
                && step == (GuardStep::ReadEntry { table: entry_addr(entry), index: pd_index(vaddr) })
        },
        GuardWalkState::AtPd { table } => if entry == 0 {
            next == GuardWalkState::Finished && step == GuardStep::Failed(GuardError::PdUnused)
        } else if entry_huge(entry) {
            next == (GuardWalkState::AwaitingFrame { pd_table: table, huge_entry: entry })
                && step == GuardStep::AllocateFrame
        } else {
            next == (GuardWalkState::AtPt { table: entry_addr(entry) })
                && step == (GuardStep::ReadEntry { table: entry_addr(entry), index: pt_index(vaddr) })
        },
        GuardWalkState::AtPt { table } => if entry == 0 {
            next == GuardWalkState::Finished && step == GuardStep::Failed(GuardError::PtUnused)
        } else {
            next == GuardWalkState::Finished
                && step == (GuardStep::ClearEntry { table, index: pt_index(vaddr), vaddr })
        },
        _ => false,
    }
}

/// Whether the walk waits for an entry.
pub open spec fn awaits_entry(state: GuardWalkState) -> bool {
    ||| state is AtPml4
    ||| state is AtPdpt
    ||| state is AtPd
    ||| state is AtPt
}

/// The most answers the walk may still ask for from `state`.
pub open spec fn walk_depth(state: GuardWalkState) -> nat {
    match state {
        GuardWalkState::AtPml4 { .. } => 4,
        GuardWalkState::AtPdpt { .. } => 3,
        GuardWalkState::AtPd { .. } => 2,
        GuardWalkState::AtPt { .. } => 1,
        GuardWalkState::AwaitingFrame { .. } => 1,
        GuardWalkState::Finished => 0,
    }
}

/// The walk goes one table level down with every entry it reads, so it asks
/// for at most four entries and one frame; after an entry it waits for
/// exactly what its step asks for, and it is finished exactly when the step
/// asks for nothing more.
pub proof fn lemma_walk_progresses(vaddr: u64, state: GuardWalkState, entry: u64, next: GuardWalkState, step: GuardStep)
    requires
        awaits_entry(state),
        entry_step_matches(vaddr, state, entry, next, step),
    ensures
        walk_depth(next) < walk_depth(state),
        step is ReadEntry ==> awaits_entry(next),
        step is AllocateFrame ==> next is AwaitingFrame,
        (next == GuardWalkState::Finished) <==> !(step is ReadEntry || step is AllocateFrame),
{
}

/// Starts unmapping the guard page at `vaddr` from the PML4 at `pml4`: the first
/// step reads the PML4 entry of `vaddr`.
pub fn unmap_guard_page(vaddr: u64, pml4: u64) -> (r: (GuardWalk, GuardStep))
    ensures
        r.0.vaddr == vaddr,
        r.0.state == (GuardWalkState::AtPml4 { table: pml4 }),
        r.1 == (GuardStep::ReadEntry { table: pml4, index: p4_index(vaddr) }),
{
    let index = index_at(vaddr, 39);
    (GuardWalk { vaddr, state: GuardWalkState::AtPml4 { table: pml4 } }, GuardStep::ReadEntry { table: pml4, index })
}

impl GuardWalk {
    /// Takes the entry that the last `ReadEntry` step asked for, and decides
    /// the next step: fail on an unused entry or a 1 GiB page, split a 2 MiB
    /// page, descend to the next table, or clear the page-table entry.
    pub fn on_entry(&mut self, entry: u64) -> (r: GuardStep)
        requires
            awaits_entry(old(self).state),
        ensures
            final(self).vaddr == old(self).vaddr,
            entry_step_matches(old(self).vaddr, old(self).state, entry, final(self).state, r),
    {
        let vaddr = self.vaddr;
        let addr = entry & PHYS_ADDR_MASK;
        let huge = (entry & !PHYS_ADDR_MASK) & HUGE_PAGE == HUGE_PAGE;
        match self.state {
            GuardWalkState::AtPml4 { table } => {
                if entry == 0 {
                    self.state = GuardWalkState::Finished;
                    return GuardStep::Failed(GuardError::P4Unused);
                }
                self.state = GuardWalkState::AtPdpt { table: addr };
                GuardStep::ReadEntry { table: addr, index: index_at(vaddr, 30) }
            },
            GuardWalkState::AtPdpt { table } => {
                if entry == 0 {
                    self.state = GuardWalkState::Finished;
                    return GuardStep::Failed(GuardError::PdptUnused);
                }
                if huge {
                    self.state = GuardWalkState::Finished;
                    return GuardStep::Failed(GuardError::PdptHuge);
                }
                self.state = GuardWalkState::AtPd { table: addr };
                GuardStep::ReadEntry { table: addr, index: index_at(vaddr, 21) }
            },
            GuardWalkState::AtPd { table } => {
                if entry == 0 {
                    self.state = GuardWalkState::Finished;
                    return GuardStep::Failed(GuardError::PdUnused);
                }
                if huge {
                    self.state = GuardWalkState::AwaitingFrame { pd_table: table, huge_entry: entry };
                    return GuardStep::AllocateFrame;
                }
                self.state = GuardWalkState::AtPt { table: addr };
                GuardStep::ReadEntry { table: addr, index: index_at(vaddr, 12) }
            },
            GuardWalkState::AtPt { table } => {
                self.state = GuardWalkState::Finished;
                if entry == 0 {
                    return GuardStep::Failed(GuardError::PtUnused);
                }
                GuardStep::ClearEntry { table, index: index_at(vaddr, 12), vaddr }
            },
            _ => GuardStep::Failed(GuardError::P4Unused),
        }
    }

    /// Takes the frame that `AllocateFrame` asked for: without one the walk
    /// fails; with one, the 2 MiB page is split into a new page table in that
    /// frame, with the guard page's entry unused, and the directory entry points
    /// to the new table (present, writable).
    pub fn on_frame(&mut self, frame: Option<u64>) -> (r: GuardStep)
        requires
            old(self).state is AwaitingFrame,
            frame is Some ==> split_addresses_valid(old(self).state->huge_entry),
        ensures
            final(self).vaddr == old(self).vaddr,
            final(self).state == GuardWalkState::Finished,
            match frame {
                None => r == GuardStep::Failed(GuardError::OutOfFrames),
                Some(pt) => match r {
                    GuardStep::InstallSplit { pt: t, entries, pd_table, pd_index: i, pd_entry } => {
                        &&& t == pt
                        &&& entries@ == split_entries(old(self).state->huge_entry, pt_index(old(self).vaddr))
                        &&& pd_table == old(self).state->pd_table
                        &&& i == pd_index(old(self).vaddr)
                        &&& pd_entry == pt | PRESENT | WRITABLE
                    },
                    _ => false,
                },
            },
    {
        let vaddr = self.vaddr;
        match self.state {
            GuardWalkState::AwaitingFrame { pd_table, huge_entry } => {
                self.state = GuardWalkState::Finished;
                match frame {
                    None => GuardStep::Failed(GuardError::OutOfFrames),
                    Some(pt) => {
                        let entries = split_huge_entry(huge_entry, index_at(vaddr, 12));
                        GuardStep::InstallSplit {
                            pt,
                            entries,
                            pd_table,
                            pd_index: index_at(vaddr, 21),
                            pd_entry: pt | PRESENT | WRITABLE,
                        }
                    },
                }
            },
            _ => {
                self.state = GuardWalkState::Finished;
                GuardStep::Failed(GuardError::OutOfFrames)
            },
        }
    }
}


proof fn lemma_frame_address(base: u64, i: u64)
    requires
        base & !PHYS_ADDR_MASK == 0,
        i < 512,
        base + i * 4096 < 0x10_0000_0000_0000,
    ensures
        ((base + i * 4096) as u64) & !PHYS_ADDR_MASK == 0,
{
    let a = (base + i * 4096) as u64;
    assert(a & !PHYS_ADDR_MASK == 0) by (bit_vector)
        requires
            base & !PHYS_ADDR_MASK == 0,
            i < 512,
            a == base + i * 4096,
            base + i * 4096 < 0x10_0000_0000_0000,
    ;
}

proof fn lemma_entry_parts(a: u64, f: u64)
    requires
        a & !PHYS_ADDR_MASK == 0,
        f & PHYS_ADDR_MASK == 0,
    ensures
        entry_addr(a | f) == a,
        entry_flags(a | f) == f,
{
    assert((a | f) & PHYS_ADDR_MASK == a && (a | f) & !PHYS_ADDR_MASK == f) by (bit_vector)
        requires
            a & !PHYS_ADDR_MASK == 0,
            f & PHYS_ADDR_MASK == 0,
    ;
}

/// Splitting a 2 MiB page keeps every 4 KiB page of it but the guard page
/// mapped where it was: the entry of page `i` is present, is no huge page,
/// maps frame `i` of the huge page (so an address at offset `i * 4096 + o` in
/// the 2 MiB region still translates to the huge page's base plus `i * 4096 + o`),
/// and keeps the huge entry's other flags; the guard page's entry is unused.
pub proof fn lemma_split_preserves_mappings(huge_entry: u64, guard: u64, i: u64)
    requires
        split_addresses_valid(huge_entry),
        i < ENTRY_COUNT,
    ensures
        i == guard ==> split_entries(huge_entry, guard)[i as int] == 0,
        i != guard ==> {
            let e = split_entries(huge_entry, guard)[i as int];
            &&& e != 0
            &&& entry_addr(e) == entry_addr(huge_entry) + i * 4096
            &&& entry_flags(e) == split_flags(huge_entry)
            &&& e & PRESENT == PRESENT
            &&& !entry_huge(e)
        },
{
    if i != guard {
        let base = entry_addr(huge_entry);
        let f = split_flags(huge_entry);
        assert(base & !PHYS_ADDR_MASK == 0) by (bit_vector)
            requires
                base == huge_entry & PHYS_ADDR_MASK,
        ;
        assert(f & PHYS_ADDR_MASK == 0 && f & PRESENT == PRESENT && f & HUGE_PAGE == 0) by (bit_vector)
            requires
                f == ((huge_entry & !PHYS_ADDR_MASK) & !HUGE_PAGE) | PRESENT,
        ;
        lemma_frame_address(base, i);
        let a = (base + i * 4096) as u64;
        lemma_entry_parts(a, f);
        let e = a | f;
        assert(e & PRESENT == PRESENT && e != 0) by (bit_vector)
            requires
                e == a | f,
                f & PRESENT == PRESENT,
        ;
        assert(entry_flags(e) & HUGE_PAGE == 0) by (bit_vector)
            requires
                entry_flags(e) == f,
                f & HUGE_PAGE == 0,
        ;
    }
}

} // verus!
