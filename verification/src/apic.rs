//! The local APIC of each core: where its registers are, and what the kernel
//! writes to them when a core starts.

use vstd::prelude::*;

verus! {

/// Byte offsets of the local APIC registers in its memory-mapped page.
#[allow(non_camel_case_types)]
#[derive(Clone, Copy, PartialEq, Eq, Structural)]
pub enum APICOffset {
    /// reserved (0x000)
    R0x00,
    /// reserved (0x010)
    R0x10,
    /// ID Register (0x020)
    IDr,
    /// Version Register (0x030)
    Vr,
    /// reserved (0x040)
    R0x40,
    /// reserved (0x050)
    R0x50,
    /// reserved (0x060)
    R0x60,
    /// reserved (0x070)
    R0x70,
    /// Task Priority Register (0x080)
    Tpr,
    /// Arbitration Priority Register (0x090)
    Apr,
    /// Processor Priority Register (0x0A0)
    Ppr,
    /// End of Interrupt (0x0B0)
    Eoi,
    /// Remote Read Register (0x0C0)
    Rrd,
    /// Logical Destination Register (0x0D0)
    Ldr,
    /// Destination Format Register (0x0E0)
    Dfr,
    /// Spurious (Interrupt) Vector Register (0x0F0)
    Svr,
    /// In-Service Register 1 (0x100)
    Isr1,
    /// In-Service Register 2 (0x110)
    Isr2,
    /// In-Service Register 3 (0x120)
    Isr3,
    /// In-Service Register 4 (0x130)
    Isr4,
    /// In-Service Register 5 (0x140)
    Isr5,
    /// In-Service Register 6 (0x150)
    Isr6,
    /// In-Service Register 7 (0x160)
    Isr7,
    /// In-Service Register 8 (0x170)
    Isr8,
    /// Trigger Mode Register 1 (0x180)
    Tmr1,
    /// Trigger Mode Register 2 (0x190)
    Tmr2,
    /// Trigger Mode Register 3 (0x1A0)
    Tmr3,
    /// Trigger Mode Register 4 (0x1B0)
    Tmr4,
    /// Trigger Mode Register 5 (0x1C0)
    Tmr5,
    /// Trigger Mode Register 6 (0x1D0)
    Tmr6,
    /// Trigger Mode Register 7 (0x1E0)
    Tmr7,
    /// Trigger Mode Register 8 (0x1F0)
    Tmr8,
    /// Interrupt Request Register 1 (0x200)
    Irr1,
    /// Interrupt Request Register 2 (0x210)
    Irr2,
    /// Interrupt Request Register 3 (0x220)
    Irr3,
    /// Interrupt Request Register 4 (0x230)
    Irr4,
    /// Interrupt Request Register 5 (0x240)
    Irr5,
    /// Interrupt Request Register 6 (0x250)
    Irr6,
    /// Interrupt Request Register 7 (0x260)
    Irr7,
    /// Interrupt Request Register 8 (0x270)
    Irr8,
    /// Error Status Register (0x280)
    Esr,
    /// reserved (0x290)
    R0x290,
    /// reserved (0x2A0)
    R0x2A0,
    /// reserved (0x2B0)
    R0x2B0,
    /// reserved (0x2C0)
    R0x2C0,
    /// reserved (0x2D0)
    R0x2D0,
    /// reserved (0x2E0)
    R0x2E0,
    /// LVT Corrected Machine Check Interrupt Register (0x2F0)
    LvtCmci,
    /// Interrupt Command Register 1 (0x300)
    Icr1,
    /// Interrupt Command Register 2 (0x310)
    Icr2,
    /// LVT Timer Register (0x320)
    LvtT,
    /// LVT Thermal Sensor Register (0x330)
    LvtTsr,
    /// LVT Performance Monitoring Counters Register (0x340)
    LvtPmcr,
    /// LVT LINT0 Register (0x350)
    LvtLint0,
    /// LVT LINT1 Register (0x360)
    LvtLint1,
    /// LVT Error Register (0x370)
    LvtErr,
    /// Initial Count Register (timer) (0x380)
    Ticr,
    /// Current Count Register (timer) (0x390)
    Tccr,
    /// reserved (0x3A0)
    R0x3A0,
    /// reserved (0x3B0)
    R0x3B0,
    /// reserved (0x3C0)
    R0x3C0,
    /// reserved (0x3D0)
    R0x3D0,
    /// Divide Configuration Register (timer) (0x3E0)
    Tdcr,
    /// reserved (0x3F0)
    R0x3F0,
}

/// The byte offset of a register.
pub open spec fn apic_offset(r: APICOffset) -> u32 {
    match r {
        APICOffset::R0x00 => 0x0,
        APICOffset::R0x10 => 0x10,
        APICOffset::IDr => 0x20,
        APICOffset::Vr => 0x30,
        APICOffset::R0x40 => 0x40,
        APICOffset::R0x50 => 0x50,
        APICOffset::R0x60 => 0x60,
        APICOffset::R0x70 => 0x70,
        APICOffset::Tpr => 0x80,
        APICOffset::Apr => 0x90,
        APICOffset::Ppr => 0xA0,
        APICOffset::Eoi => 0xB0,
        APICOffset::Rrd => 0xC0,
        APICOffset::Ldr => 0xD0,
        APICOffset::Dfr => 0xE0,
        APICOffset::Svr => 0xF0,
        APICOffset::Isr1 => 0x100,
        APICOffset::Isr2 => 0x110,
        APICOffset::Isr3 => 0x120,
        APICOffset::Isr4 => 0x130,
        APICOffset::Isr5 => 0x140,
        APICOffset::Isr6 => 0x150,
        APICOffset::Isr7 => 0x160,
        APICOffset::Isr8 => 0x170,
        APICOffset::Tmr1 => 0x180,
        APICOffset::Tmr2 => 0x190,
        APICOffset::Tmr3 => 0x1A0,
        APICOffset::Tmr4 => 0x1B0,
        APICOffset::Tmr5 => 0x1C0,
        APICOffset::Tmr6 => 0x1D0,
        APICOffset::Tmr7 => 0x1E0,
        APICOffset::Tmr8 => 0x1F0,
        APICOffset::Irr1 => 0x200,
        APICOffset::Irr2 => 0x210,
        APICOffset::Irr3 => 0x220,
        APICOffset::Irr4 => 0x230,
        APICOffset::Irr5 => 0x240,
        APICOffset::Irr6 => 0x250,
        APICOffset::Irr7 => 0x260,
        APICOffset::Irr8 => 0x270,
        APICOffset::Esr => 0x280,
        APICOffset::R0x290 => 0x290,
        APICOffset::R0x2A0 => 0x2A0,
        APICOffset::R0x2B0 => 0x2B0,
        APICOffset::R0x2C0 => 0x2C0,
        APICOffset::R0x2D0 => 0x2D0,
        APICOffset::R0x2E0 => 0x2E0,
        APICOffset::LvtCmci => 0x2F0,
        APICOffset::Icr1 => 0x300,
        APICOffset::Icr2 => 0x310,
        APICOffset::LvtT => 0x320,
        APICOffset::LvtTsr => 0x330,
        APICOffset::LvtPmcr => 0x340,
        APICOffset::LvtLint0 => 0x350,
        APICOffset::LvtLint1 => 0x360,
        APICOffset::LvtErr => 0x370,
        APICOffset::Ticr => 0x380,
        APICOffset::Tccr => 0x390,
        APICOffset::R0x3A0 => 0x3A0,
        APICOffset::R0x3B0 => 0x3B0,
        APICOffset::R0x3C0 => 0x3C0,
        APICOffset::R0x3D0 => 0x3D0,
        APICOffset::Tdcr => 0x3E0,
        APICOffset::R0x3F0 => 0x3F0,
    }
}

impl APICOffset {
    /// The byte offset of the register from the base of the local APIC.
    pub fn offset(&self) -> (r: u32)
        ensures
            r == apic_offset(*self),
    {
        match self {
            APICOffset::R0x00 => 0x0,
            APICOffset::R0x10 => 0x10,
            APICOffset::IDr => 0x20,
            APICOffset::Vr => 0x30,
            APICOffset::R0x40 => 0x40,
            APICOffset::R0x50 => 0x50,
            APICOffset::R0x60 => 0x60,
            APICOffset::R0x70 => 0x70,
            APICOffset::Tpr => 0x80,
            APICOffset::Apr => 0x90,
            APICOffset::Ppr => 0xA0,
            APICOffset::Eoi => 0xB0,
            APICOffset::Rrd => 0xC0,
            APICOffset::Ldr => 0xD0,
            APICOffset::Dfr => 0xE0,
            APICOffset::Svr => 0xF0,
            APICOffset::Isr1 => 0x100,
            APICOffset::Isr2 => 0x110,
            APICOffset::Isr3 => 0x120,
            APICOffset::Isr4 => 0x130,
            APICOffset::Isr5 => 0x140,
            APICOffset::Isr6 => 0x150,
            APICOffset::Isr7 => 0x160,
            APICOffset::Isr8 => 0x170,
            APICOffset::Tmr1 => 0x180,
            APICOffset::Tmr2 => 0x190,
            APICOffset::Tmr3 => 0x1A0,
            APICOffset::Tmr4 => 0x1B0,
            APICOffset::Tmr5 => 0x1C0,
            APICOffset::Tmr6 => 0x1D0,
            APICOffset::Tmr7 => 0x1E0,
            APICOffset::Tmr8 => 0x1F0,
            APICOffset::Irr1 => 0x200,
            APICOffset::Irr2 => 0x210,
            APICOffset::Irr3 => 0x220,
            APICOffset::Irr4 => 0x230,
            APICOffset::Irr5 => 0x240,
            APICOffset::Irr6 => 0x250,
            APICOffset::Irr7 => 0x260,
            APICOffset::Irr8 => 0x270,
            APICOffset::Esr => 0x280,
            APICOffset::R0x290 => 0x290,
            APICOffset::R0x2A0 => 0x2A0,
            APICOffset::R0x2B0 => 0x2B0,
            APICOffset::R0x2C0 => 0x2C0,
            APICOffset::R0x2D0 => 0x2D0,
            APICOffset::R0x2E0 => 0x2E0,
            APICOffset::LvtCmci => 0x2F0,
            APICOffset::Icr1 => 0x300,
            APICOffset::Icr2 => 0x310,
            APICOffset::LvtT => 0x320,
            APICOffset::LvtTsr => 0x330,
            APICOffset::LvtPmcr => 0x340,
            APICOffset::LvtLint0 => 0x350,
            APICOffset::LvtLint1 => 0x360,
            APICOffset::LvtErr => 0x370,
            APICOffset::Ticr => 0x380,
            APICOffset::Tccr => 0x390,
            APICOffset::R0x3A0 => 0x3A0,
            APICOffset::R0x3B0 => 0x3B0,
            APICOffset::R0x3C0 => 0x3C0,
            APICOffset::R0x3D0 => 0x3D0,
            APICOffset::Tdcr => 0x3E0,
            APICOffset::R0x3F0 => 0x3F0,
        }
    }

    /// The index of the register among the 32-bit words of the local APIC page.
    pub fn word_index(&self) -> (r: u32)
        ensures
            r == apic_offset(*self) / 4,
    {
        self.offset() / 4
    }
}

/// Every register sits on a 16-byte boundary inside the first kilobyte of the
/// local APIC page.
pub proof fn lemma_offsets_aligned(r: APICOffset)
    ensures
        apic_offset(r) % 16 == 0,
        apic_offset(r) < 0x400,
{
}

/// One 32-bit write to a memory-mapped register, at byte offset `offset`.
#[derive(Clone, Copy, PartialEq, Eq, Structural)]
pub struct RegisterWrite {
    pub offset: u32,
    pub value: u32,
}

/// The MSR that holds the physical base address of the local APIC.
pub const IA32_APIC_BASE_MSR: u32 = 0x1B;

/// The physical base address of the local APIC, from the value of `IA32_APIC_BASE_MSR`
/// (bits 12 to 31 are kept).
pub fn lapic_base_from_msr(msr_value: u64) -> (r: u64)
    ensures
        r == msr_value & 0xFFFFF000,
{
    msr_value & 0xFFFFF000
}

/// The APIC id of a core, from the value of its local APIC ID register (bits 24 to 31).
pub fn core_id_from_id_register(id_register: u32) -> (r: u8)
    ensures
        r == (id_register >> 24u32) as u8,
{
    (id_register >> 24u32) as u8
}

/// The spurious-interrupt vector register value that software-enables the
/// local APIC (bit 8) with spurious vector 0xFF.
pub open spec fn svr_enabled(current: u32) -> u32 {
    current | 0x100 | 0xFF
}

/// The spurious-interrupt vector register value that software-enables the
/// local APIC, keeping the other bits of `current`.
pub fn enabled_svr(current: u32) -> (r: u32)
    ensures
        r == svr_enabled(current),
{
    assert((1u32 << 8u32) == 0x100u32) by (bit_vector);
    current | (1u32 << 8u32) | 0xFF
}

/// Enabling the local APIC sets the enable bit and the spurious vector 0xFF
/// and leaves every other bit of the register as it was.
pub proof fn lemma_svr_enabled_bits(current: u32)
    ensures
        svr_enabled(current) & 0x100 == 0x100,
        svr_enabled(current) & 0xFF == 0xFF,
        svr_enabled(current) & !0x1FFu32 == current & !0x1FFu32,
{
    assert((current | 0x100 | 0xFF) & 0x100 == 0x100) by (bit_vector);
    assert((current | 0x100 | 0xFF) & 0xFF == 0xFF) by (bit_vector);
    assert((current | 0x100 | 0xFF) & !0x1FFu32 == current & !0x1FFu32) by (bit_vector);
}

/// A masked local vector table entry (bit 16).
pub const LVT_MASKED: u32 = 0x10000;

/// The register writes, in order, that bring up the local APIC of core
/// `core_id` whose spurious-interrupt vector register reads `current_svr`:
/// enable it, mask every local interrupt, clear the error status (twice),
/// acknowledge any pending interrupt, accept every priority, set the logical
/// destination to the core id, and select the flat destination model.
pub open spec fn lapic_init_plan(core_id: u8, current_svr: u32) -> Seq<RegisterWrite> {
    seq![
        RegisterWrite { offset: apic_offset(APICOffset::Svr), value: svr_enabled(current_svr) },
        RegisterWrite { offset: apic_offset(APICOffset::LvtT), value: LVT_MASKED },
        RegisterWrite { offset: apic_offset(APICOffset::LvtLint0), value: LVT_MASKED },
        RegisterWrite { offset: apic_offset(APICOffset::LvtLint1), value: LVT_MASKED },
        RegisterWrite { offset: apic_offset(APICOffset::LvtErr), value: LVT_MASKED },
        RegisterWrite { offset: apic_offset(APICOffset::LvtPmcr), value: LVT_MASKED },
        RegisterWrite { offset: apic_offset(APICOffset::LvtTsr), value: LVT_MASKED },
        RegisterWrite { offset: apic_offset(APICOffset::Esr), value: 0 },
        RegisterWrite { offset: apic_offset(APICOffset::Esr), value: 0 },
        RegisterWrite { offset: apic_offset(APICOffset::Eoi), value: 0 },
        RegisterWrite { offset: apic_offset(APICOffset::Tpr), value: 0 },
        RegisterWrite { offset: apic_offset(APICOffset::Ldr), value: ((core_id as u32) << 24u32) },
        RegisterWrite { offset: apic_offset(APICOffset::Dfr), value: 0xFFFFFFFF },
    ]
}

/// The register writes that bring up the local APIC of core `core_id` (see
/// `lapic_init_plan`).
pub fn init_lapic_for_current_core(core_id: u8, current_svr: u32) -> (r: Vec<RegisterWrite>)
    ensures
        r@ == lapic_init_plan(core_id, current_svr),
{
    let mut writes: Vec<RegisterWrite> = Vec::new();
    writes.push(RegisterWrite { offset: APICOffset::Svr.offset(), value: enabled_svr(current_svr) });
    writes.push(RegisterWrite { offset: APICOffset::LvtT.offset(), value: LVT_MASKED });
    writes.push(RegisterWrite { offset: APICOffset::LvtLint0.offset(), value: LVT_MASKED });
    writes.push(RegisterWrite { offset: APICOffset::LvtLint1.offset(), value: LVT_MASKED });
    writes.push(RegisterWrite { offset: APICOffset::LvtErr.offset(), value: LVT_MASKED });
    writes.push(RegisterWrite { offset: APICOffset::LvtPmcr.offset(), value: LVT_MASKED });
    writes.push(RegisterWrite { offset: APICOffset::LvtTsr.offset(), value: LVT_MASKED });
    writes.push(RegisterWrite { offset: APICOffset::Esr.offset(), value: 0 });
    writes.push(RegisterWrite { offset: APICOffset::Esr.offset(), value: 0 });
    writes.push(RegisterWrite { offset: APICOffset::Eoi.offset(), value: 0 });
    writes.push(RegisterWrite { offset: APICOffset::Tpr.offset(), value: 0 });
    writes.push(RegisterWrite { offset: APICOffset::Ldr.offset(), value: (core_id as u32) << 24u32 });
    writes.push(RegisterWrite { offset: APICOffset::Dfr.offset(), value: 0xFFFFFFFF });
    assert(writes@ =~= lapic_init_plan(core_id, current_svr));
    writes
}

} // verus!
