//! Interrupt handling decisions: uptime accounting and the timer tick, timer
//! programming (TSC deadline or calibrated periodic mode), I/O APIC
//! redirection, the routing that the kernel derives from the ACPI interrupt
//! model, and the interrupt descriptor table with its exception reports.

use vstd::prelude::*;
use crate::apic::{RegisterWrite, svr_enabled, enabled_svr};
use crate::cpuinfo::{CpuInfo, TSC_DEADLINE, bit_set};
use crate::gdt::DOUBLE_FAULT_IST_INDEX;
use crate::text::{decimal, push_decimal};
use vstd::string::StringExecFns;
use x86_64::structures::paging::{Page, Size4KiB};
use x86_64::VirtAddr;

verus! {

/// TSC frequency that the kernel assumes, in Hz.
pub const TSC_MOCK_FREQUENCY: u64 = 2400000000;

/// Interval between timer ticks, in milliseconds.
pub const TIMER_TICK_INTERVAL_MS: u64 = 1;

/// Frequency of timer ticks, in Hz.
pub const TIMER_TICK_FREQ_HZ: u64 = 2000 / TIMER_TICK_INTERVAL_MS;

/// TSC cycles between two timer deadlines.
pub const TSC_CYCLES_PER_TICK: u64 = TSC_MOCK_FREQUENCY / TIMER_TICK_FREQ_HZ;

/// The MSR that arms the TSC-deadline timer.
pub const MSR_IA32_TSC_DEADLINE: u32 = 0x6E0;

/// Duration of one tick, in nanoseconds.
pub const TICK_DURATION_NS: u64 = 1_000_000_000 / TIMER_TICK_FREQ_HZ;

/// Duration of one tick, in microseconds.
pub const TICK_DURATION_US: u64 = 1_000_000 / TIMER_TICK_FREQ_HZ;

/// Time since boot, in nanoseconds, after `ticks` timer ticks.
pub fn system_uptime_ns(ticks: u64) -> (r: u64)
    requires
        ticks * TICK_DURATION_NS <= u64::MAX,
    ensures
        r == ticks * TICK_DURATION_NS,
{
    ticks * TICK_DURATION_NS
}

/// Time since boot, in microseconds, after `ticks` timer ticks.
pub fn system_uptime_us(ticks: u64) -> (r: u64)
    requires
        ticks * TICK_DURATION_US <= u64::MAX,
    ensures
        r == ticks * TICK_DURATION_US,
{
    ticks * TICK_DURATION_US
}

/// The two clocks agree: the uptime in nanoseconds is a thousand times the
/// uptime in microseconds, and both grow with the number of ticks; between
/// two readings the uptime advances by a whole number of ticks, so a later
/// reading minus an earlier one never goes below zero.
pub proof fn lemma_uptime_units_agree(ticks: u64, later: u64)
    requires
        ticks <= later,
    ensures
        ticks * TICK_DURATION_NS == 1000 * (ticks * TICK_DURATION_US),
        ticks * TICK_DURATION_NS <= later * TICK_DURATION_NS,
        ticks * TICK_DURATION_US <= later * TICK_DURATION_US,
        later * TICK_DURATION_NS - ticks * TICK_DURATION_NS == (later - ticks) * TICK_DURATION_NS,
        (later * TICK_DURATION_NS - ticks * TICK_DURATION_NS) % (TICK_DURATION_NS as int) == 0,
        (later * TICK_DURATION_US - ticks * TICK_DURATION_US) % (TICK_DURATION_US as int) == 0,
{
    assert(((later - ticks) * 500_000) % 500_000 == 0) by (nonlinear_arith);
    assert(((later - ticks) * 500) % 500 == 0) by (nonlinear_arith);
}

/// The TSC value at which the timer fires next, one tick after `now`.
pub fn next_tsc_deadline(now: u64) -> (r: u64)
    requires
        now + TSC_CYCLES_PER_TICK <= u64::MAX,
    ensures
        r == now + TSC_CYCLES_PER_TICK,
{
    now + TSC_CYCLES_PER_TICK
}

/// The tick count after one more timer interrupt; the counter wraps around.
pub open spec fn next_tick_count(ticks: u64) -> u64 {
    if ticks == u64::MAX {
        0
    } else {
        (ticks + 1) as u64
    }
}

/// What the timer interrupt handler does on a tick: it counts the tick and
/// re-arms the TSC-deadline timer one tick after `tsc_now` (the deadline goes
/// to `MSR_IA32_TSC_DEADLINE`), then signals the end of the interrupt.
#[derive(Clone, Copy, Debug, PartialEq, Eq, Structural)]
pub struct TimerTick {
    pub ticks: u64,
    pub deadline: u64,
}

/// The tick count and the next deadline after a timer interrupt that came
/// when `ticks` ticks had been counted and the TSC read `tsc_now`.
pub fn on_timer_interrupt(ticks: u64, tsc_now: u64) -> (r: TimerTick)
    requires
        tsc_now + TSC_CYCLES_PER_TICK <= u64::MAX,
    ensures
        r.ticks == next_tick_count(ticks),
        r.deadline == tsc_now + TSC_CYCLES_PER_TICK,
{
    TimerTick { ticks: ticks.wrapping_add(1), deadline: next_tsc_deadline(tsc_now) }
}

/// Each timer interrupt advances the tick count, and with it the uptime by
/// exactly one tick in either unit, as long as the counter does not wrap; so
/// a later reading is never below an earlier one (`lemma_uptime_units_agree`).
pub proof fn lemma_tick_advances_uptime(ticks: u64)
    requires
        ticks < u64::MAX,
    ensures
        next_tick_count(ticks) > ticks,
        next_tick_count(ticks) * TICK_DURATION_NS == ticks * TICK_DURATION_NS + TICK_DURATION_NS,
        next_tick_count(ticks) * TICK_DURATION_US == ticks * TICK_DURATION_US + TICK_DURATION_US,
{
}

/// The interrupt vectors of the hardware interrupts that the kernel handles.
#[derive(Clone, Copy, Debug, PartialEq, Eq, Structural)]
pub enum InterruptIndex {
    /// Local APIC timer (vector 32).
    Timer,
    /// Keyboard, through the I/O APIC or LINT1 (vector 33).
    Keyboard,
}

/// The vector of a hardware interrupt.
pub open spec fn interrupt_vector(i: InterruptIndex) -> u8 {
    match i {
        InterruptIndex::Timer => 32,
        InterruptIndex::Keyboard => 33,
    }
}

impl InterruptIndex {
    /// The interrupt vector.
    pub fn as_u8(&self) -> (r: u8)
        ensures
            r == interrupt_vector(*self),
    {
        match self {
            InterruptIndex::Timer => 32,
            InterruptIndex::Keyboard => 33,
        }
    }

    /// The interrupt vector, widened.
    pub fn as_u32(&self) -> (r: u32)
        ensures
            r == interrupt_vector(*self) as u32,
    {
        self.as_u8() as u32
    }
}

/// Byte offsets of the local APIC registers in its memory-mapped page.
#[allow(non_camel_case_types)]
#[derive(Clone, Copy, PartialEq, Eq, Structural)]
pub enum APICOffset {
    /// reserved (0x000)
    R0x00,
    /// reserved (0x010)
    R0x10,
    /// ID Register (0x020)
    Ir,
    /// Version Register (0x030)
    Vr,
    /// reserved (0x040)
    R0x40,
    /// reserved (0x050)
    R0x50,
    /// reserved (0x060)
    R0x60,
    /// reserved (0x070)
    R0x70,
    /// Task Priority Register (0x080)
    Tpr,
    /// Arbitration Priority Register (0x090)
    Apr,
    /// Processor Priority Register (0x0A0)
    Ppr,
    /// End of Interrupt (0x0B0)
    Eoi,
    /// Remote Read Register (0x0C0)
    Rrd,
    /// Logical Destination Register (0x0D0)
    Ldr,
    /// Destination Format Register (0x0E0)
    Dfr,
    /// Spurious (Interrupt) Vector Register (0x0F0)
    Svr,
    /// In-Service Register 1 (0x100)
    Isr1,
    /// In-Service Register 2 (0x110)
    Isr2,
    /// In-Service Register 3 (0x120)
    Isr3,
    /// In-Service Register 4 (0x130)
    Isr4,
    /// In-Service Register 5 (0x140)
    Isr5,
    /// In-Service Register 6 (0x150)
    Isr6,
    /// In-Service Register 7 (0x160)
    Isr7,
    /// In-Service Register 8 (0x170)
    Isr8,
    /// Trigger Mode Register 1 (0x180)
    Tmr1,
    /// Trigger Mode Register 2 (0x190)
    Tmr2,
    /// Trigger Mode Register 3 (0x1A0)
    Tmr3,
    /// Trigger Mode Register 4 (0x1B0)
    Tmr4,
    /// Trigger Mode Register 5 (0x1C0)
    Tmr5,
    /// Trigger Mode Register 6 (0x1D0)
    Tmr6,
    /// Trigger Mode Register 7 (0x1E0)
    Tmr7,
    /// Trigger Mode Register 8 (0x1F0)
    Tmr8,
    /// Interrupt Request Register 1 (0x200)
    Irr1,
    /// Interrupt Request Register 2 (0x210)
    Irr2,
    /// Interrupt Request Register 3 (0x220)
    Irr3,
    /// Interrupt Request Register 4 (0x230)
    Irr4,
    /// Interrupt Request Register 5 (0x240)
    Irr5,
    /// Interrupt Request Register 6 (0x250)
    Irr6,
    /// Interrupt Request Register 7 (0x260)
    Irr7,
    /// Interrupt Request Register 8 (0x270)
    Irr8,
    /// Error Status Register (0x280)
    Esr,
    /// reserved (0x290)
    R0x290,
    /// reserved (0x2A0)
    R0x2A0,
    /// reserved (0x2B0)
    R0x2B0,
    /// reserved (0x2C0)
    R0x2C0,
    /// reserved (0x2D0)
    R0x2D0,
    /// reserved (0x2E0)
    R0x2E0,
    /// LVT Corrected Machine Check Interrupt Register (0x2F0)
    LvtCmci,
    /// Interrupt Command Register 1 (0x300)
    Icr1,
    /// Interrupt Command Register 2 (0x310)
    Icr2,
    /// LVT Timer Register (0x320)
    LvtT,
    /// LVT Thermal Sensor Register (0x330)
    LvtTsr,
    /// LVT Performance Monitoring Counters Register (0x340)
    LvtPmcr,
    /// LVT LINT0 Register (0x350)
    LvtLint0,
    /// LVT LINT1 Register (0x360)
    LvtLint1,
    /// LVT Error Register (0x370)
    LvtE,
    /// Initial Count Register (timer) (0x380)
    Ticr,
    /// Current Count Register (timer) (0x390)
    Tccr,
    /// reserved (0x3A0)
    R0x3A0,
    /// reserved (0x3B0)
    R0x3B0,
    /// reserved (0x3C0)
    R0x3C0,
    /// reserved (0x3D0)
    R0x3D0,
    /// Divide Configuration Register (timer) (0x3E0)
    Tdcr,
    /// reserved (0x3F0)
    R0x3F0,
}

/// The byte offset of a register.
pub open spec fn apic_offset(r: APICOffset) -> u32 {
    match r {
        APICOffset::R0x00 => 0x0,
        APICOffset::R0x10 => 0x10,
        APICOffset::Ir => 0x20,
        APICOffset::Vr => 0x30,
        APICOffset::R0x40 => 0x40,
        APICOffset::R0x50 => 0x50,
        APICOffset::R0x60 => 0x60,
        APICOffset::R0x70 => 0x70,
        APICOffset::Tpr => 0x80,
        APICOffset::Apr => 0x90,
        APICOffset::Ppr => 0xA0,
        APICOffset::Eoi => 0xB0,
        APICOffset::Rrd => 0xC0,
        APICOffset::Ldr => 0xD0,
        APICOffset::Dfr => 0xE0,
        APICOffset::Svr => 0xF0,
        APICOffset::Isr1 => 0x100,
        APICOffset::Isr2 => 0x110,
        APICOffset::Isr3 => 0x120,
        APICOffset::Isr4 => 0x130,
        APICOffset::Isr5 => 0x140,
        APICOffset::Isr6 => 0x150,
        APICOffset::Isr7 => 0x160,
        APICOffset::Isr8 => 0x170,
        APICOffset::Tmr1 => 0x180,
        APICOffset::Tmr2 => 0x190,
        APICOffset::Tmr3 => 0x1A0,
        APICOffset::Tmr4 => 0x1B0,
        APICOffset::Tmr5 => 0x1C0,
        APICOffset::Tmr6 => 0x1D0,
        APICOffset::Tmr7 => 0x1E0,
        APICOffset::Tmr8 => 0x1F0,
        APICOffset::Irr1 => 0x200,
        APICOffset::Irr2 => 0x210,
        APICOffset::Irr3 => 0x220,
        APICOffset::Irr4 => 0x230,
        APICOffset::Irr5 => 0x240,
        APICOffset::Irr6 => 0x250,
        APICOffset::Irr7 => 0x260,
        APICOffset::Irr8 => 0x270,
        APICOffset::Esr => 0x280,
        APICOffset::R0x290 => 0x290,
        APICOffset::R0x2A0 => 0x2A0,
        APICOffset::R0x2B0 => 0x2B0,
        APICOffset::R0x2C0 => 0x2C0,
        APICOffset::R0x2D0 => 0x2D0,
        APICOffset::R0x2E0 => 0x2E0,
        APICOffset::LvtCmci => 0x2F0,
        APICOffset::Icr1 => 0x300,
        APICOffset::Icr2 => 0x310,
        APICOffset::LvtT => 0x320,
        APICOffset::LvtTsr => 0x330,
        APICOffset::LvtPmcr => 0x340,
        APICOffset::LvtLint0 => 0x350,
        APICOffset::LvtLint1 => 0x360,
        APICOffset::LvtE => 0x370,
        APICOffset::Ticr => 0x380,
        APICOffset::Tccr => 0x390,
        APICOffset::R0x3A0 => 0x3A0,
        APICOffset::R0x3B0 => 0x3B0,
        APICOffset::R0x3C0 => 0x3C0,
        APICOffset::R0x3D0 => 0x3D0,
        APICOffset::Tdcr => 0x3E0,
        APICOffset::R0x3F0 => 0x3F0,
    }
}

impl APICOffset {
    /// The byte offset of the register from the base of the local APIC.
    pub fn offset(&self) -> (r: u32)
        ensures
            r == apic_offset(*self),
    {
        match self {
            APICOffset::R0x00 => 0x0,
            APICOffset::R0x10 => 0x10,
            APICOffset::Ir => 0x20,
            APICOffset::Vr => 0x30,
            APICOffset::R0x40 => 0x40,
            APICOffset::R0x50 => 0x50,
            APICOffset::R0x60 => 0x60,
            APICOffset::R0x70 => 0x70,
            APICOffset::Tpr => 0x80,
            APICOffset::Apr => 0x90,
            APICOffset::Ppr => 0xA0,
            APICOffset::Eoi => 0xB0,
            APICOffset::Rrd => 0xC0,
            APICOffset::Ldr => 0xD0,
            APICOffset::Dfr => 0xE0,
            APICOffset::Svr => 0xF0,
            APICOffset::Isr1 => 0x100,
            APICOffset::Isr2 => 0x110,
            APICOffset::Isr3 => 0x120,
            APICOffset::Isr4 => 0x130,
            APICOffset::Isr5 => 0x140,
            APICOffset::Isr6 => 0x150,
            APICOffset::Isr7 => 0x160,
            APICOffset::Isr8 => 0x170,
            APICOffset::Tmr1 => 0x180,
            APICOffset::Tmr2 => 0x190,
            APICOffset::Tmr3 => 0x1A0,
            APICOffset::Tmr4 => 0x1B0,
            APICOffset::Tmr5 => 0x1C0,
            APICOffset::Tmr6 => 0x1D0,
            APICOffset::Tmr7 => 0x1E0,
            APICOffset::Tmr8 => 0x1F0,
            APICOffset::Irr1 => 0x200,
            APICOffset::Irr2 => 0x210,
            APICOffset::Irr3 => 0x220,
            APICOffset::Irr4 => 0x230,
            APICOffset::Irr5 => 0x240,
            APICOffset::Irr6 => 0x250,
            APICOffset::Irr7 => 0x260,
            APICOffset::Irr8 => 0x270,
            APICOffset::Esr => 0x280,
            APICOffset::R0x290 => 0x290,
            APICOffset::R0x2A0 => 0x2A0,
            APICOffset::R0x2B0 => 0x2B0,
            APICOffset::R0x2C0 => 0x2C0,
            APICOffset::R0x2D0 => 0x2D0,
            APICOffset::R0x2E0 => 0x2E0,
            APICOffset::LvtCmci => 0x2F0,
            APICOffset::Icr1 => 0x300,
            APICOffset::Icr2 => 0x310,
            APICOffset::LvtT => 0x320,
            APICOffset::LvtTsr => 0x330,
            APICOffset::LvtPmcr => 0x340,
            APICOffset::LvtLint0 => 0x350,
            APICOffset::LvtLint1 => 0x360,
            APICOffset::LvtE => 0x370,
            APICOffset::Ticr => 0x380,
            APICOffset::Tccr => 0x390,
            APICOffset::R0x3A0 => 0x3A0,
            APICOffset::R0x3B0 => 0x3B0,
            APICOffset::R0x3C0 => 0x3C0,
            APICOffset::R0x3D0 => 0x3D0,
            APICOffset::Tdcr => 0x3E0,
            APICOffset::R0x3F0 => 0x3F0,
        }
    }

    /// The index of the register among the 32-bit words of the local APIC page.
    pub fn word_index(&self) -> (r: u32)
        ensures
            r == apic_offset(*self) / 4,
    {
        self.offset() / 4
    }
}

/// Every register sits on a 16-byte boundary inside the first kilobyte of the
/// local APIC page.
pub proof fn lemma_offsets_aligned(r: APICOffset)
    ensures
        apic_offset(r) % 16 == 0,
        apic_offset(r) < 0x400,
{
}

/// The address of the bootstrap core's local APIC, once mapped (0 before).
#[derive(Clone, Copy, PartialEq, Eq, Structural)]
pub struct LapicPtr {
    pub address: u64,
}

impl LapicPtr {
    /// No local APIC mapped yet.
    pub fn null() -> (r: Self)
        ensures
            r.address == 0,
    {
        LapicPtr { address: 0 }
    }
}

/// The write that signals the end of an interrupt to the local APIC.
pub fn interrupt_over() -> (r: RegisterWrite)
    ensures
        r == (RegisterWrite { offset: apic_offset(APICOffset::Eoi), value: 0 }),
{
    RegisterWrite { offset: APICOffset::Eoi.offset(), value: 0 }
}

/// The write that routes LINT1 to the keyboard vector.
pub fn init_keyboard() -> (r: RegisterWrite)
    ensures
        r == (RegisterWrite {
            offset: apic_offset(APICOffset::LvtLint1),
            value: interrupt_vector(InterruptIndex::Keyboard) as u32,
        }),
{
    RegisterWrite { offset: APICOffset::LvtLint1.offset(), value: InterruptIndex::Keyboard.as_u32() }
}

/// How the local APIC timer of a core is driven.
#[derive(Clone, Copy, PartialEq, Eq, Structural)]
pub enum TimerMode {
    /// The timer fires when the TSC reaches the deadline MSR.
    TscDeadline,
    /// The timer counts down from a calibrated initial count, again and again.
    Periodic,
}

/// The timer mode of a core: TSC-deadline mode where the core has it, else periodic mode.
pub fn init_timer_for_core(info: &CpuInfo) -> (r: TimerMode)
    ensures
        r == (if bit_set(info.features.bits, TSC_DEADLINE) {
            TimerMode::TscDeadline
        } else {
            TimerMode::Periodic
        }),
{
    if info.features.has(TSC_DEADLINE) {
        TimerMode::TscDeadline
    } else {
        TimerMode::Periodic
    }
}

/// LVT timer mode bits of TSC-deadline mode (bit 18).
pub const LVTT_TSC_DEADLINE_MODE: u32 = 0x40000;

/// LVT timer mode bits of periodic mode (bit 17).
pub const LVTT_PERIODIC_MODE: u32 = 0x20000;

/// The writes that set up TSC-deadline mode, given the current
/// spurious-interrupt vector register: enable the local APIC, then route the
/// timer to its vector in TSC-deadline mode.
pub fn deadline_mode_writes(current_svr: u32) -> (r: Vec<RegisterWrite>)
    ensures
        r@ == seq![
            RegisterWrite { offset: apic_offset(APICOffset::Svr), value: svr_enabled(current_svr) },
            RegisterWrite {
                offset: apic_offset(APICOffset::LvtT),
                value: (interrupt_vector(InterruptIndex::Timer) as u32) | LVTT_TSC_DEADLINE_MODE,
            },
        ],
{
    let mut w: Vec<RegisterWrite> = Vec::new();
    w.push(RegisterWrite { offset: APICOffset::Svr.offset(), value: enabled_svr(current_svr) });
    w.push(RegisterWrite {
        offset: APICOffset::LvtT.offset(),
        value: InterruptIndex::Timer.as_u32() | LVTT_TSC_DEADLINE_MODE,
    });
    w
}

/// Initial count of the one-shot countdown with which the timer is calibrated.
pub const CALIBRATION_COUNT: u32 = 1_000_000;

/// The writes that start the calibration countdown: divide configuration 0
/// (the bus clock divided by 2), one-shot mode on the timer vector, and the
/// initial count.
pub fn periodic_calibration_writes() -> (r: Vec<RegisterWrite>)
    ensures
        r@ == seq![
            RegisterWrite { offset: apic_offset(APICOffset::Tdcr), value: 0 },
            RegisterWrite {
                offset: apic_offset(APICOffset::LvtT),
                value: interrupt_vector(InterruptIndex::Timer) as u32,
            },
            RegisterWrite { offset: apic_offset(APICOffset::Ticr), value: CALIBRATION_COUNT },
        ],
{
    let mut w: Vec<RegisterWrite> = Vec::new();
    w.push(RegisterWrite { offset: APICOffset::Tdcr.offset(), value: 0 });
    w.push(RegisterWrite { offset: APICOffset::LvtT.offset(), value: InterruptIndex::Timer.as_u32() });
    w.push(RegisterWrite { offset: APICOffset::Ticr.offset(), value: CALIBRATION_COUNT });
    w
}

/// The rate, in Hz, at which the calibration countdown of `CALIBRATION_COUNT`
/// ran when it took `tsc_cycles` TSC cycles. Under divide configuration 0
/// that is half the local APIC's bus clock; the kernel takes it as the bus
/// frequency.
pub open spec fn apic_bus_frequency(tsc_cycles: u64) -> u64 {
    ((CALIBRATION_COUNT as u64 * TSC_MOCK_FREQUENCY) as u64 / tsc_cycles) as u64
}

/// The initial count that makes the timer, with divider 16, fire at
/// `TIMER_TICK_FREQ_HZ` (truncated to 32 bits).
pub open spec fn periodic_initial_count(tsc_cycles: u64) -> u32 {
    ((apic_bus_frequency(tsc_cycles) / 16) / TIMER_TICK_FREQ_HZ) as u32
}

/// The initial count of periodic mode, from the TSC values read when the
/// calibration countdown started and when it reached zero.
pub fn periodic_timer_ticks(tsc_start: u64, tsc_end: u64) -> (r: u32)
    requires
        tsc_start < tsc_end,
    ensures
        r == periodic_initial_count((tsc_end - tsc_start) as u64),
{
    let tsc_cycles = tsc_end - tsc_start;
    let apic_bus_freq = (CALIBRATION_COUNT as u64 * TSC_MOCK_FREQUENCY) / tsc_cycles;
    let divider: u64 = 16;
    let apic_timer_freq = apic_bus_freq / divider;
    (apic_timer_freq / TIMER_TICK_FREQ_HZ) as u32
}

/// The writes that switch the timer to periodic mode: enable the local APIC,
/// divider 16, periodic mode on the timer vector, and the calibrated initial count.
pub fn periodic_mode_writes(current_svr: u32, initial_count: u32) -> (r: Vec<RegisterWrite>)
    ensures
        r@ == seq![
            RegisterWrite { offset: apic_offset(APICOffset::Svr), value: svr_enabled(current_svr) },
            RegisterWrite { offset: apic_offset(APICOffset::Tdcr), value: 3 },
            RegisterWrite {
                offset: apic_offset(APICOffset::LvtT),
                value: (interrupt_vector(InterruptIndex::Timer) as u32) | LVTT_PERIODIC_MODE,
            },
            RegisterWrite { offset: apic_offset(APICOffset::Ticr), value: initial_count },
        ],
{
    let mut w: Vec<RegisterWrite> = Vec::new();
    w.push(RegisterWrite { offset: APICOffset::Svr.offset(), value: enabled_svr(current_svr) });
    w.push(RegisterWrite { offset: APICOffset::Tdcr.offset(), value: 3 });
    w.push(RegisterWrite {
        offset: APICOffset::LvtT.offset(),
        value: InterruptIndex::Timer.as_u32() | LVTT_PERIODIC_MODE,
    });
    w.push(RegisterWrite { offset: APICOffset::Ticr.offset(), value: initial_count });
    w
}


/// One access to an I/O APIC through its two-register window.
#[derive(Clone, Copy, PartialEq, Eq, Structural)]
pub enum IoApicAccess {
    /// Write the register number to IOREGSEL (word 0).
    Select(u32),
    /// Write a value to IOWIN (word 4), into the selected register.
    Write(u32),
    /// Read IOWIN (word 4), the selected register.
    Read,
}

/// The I/O APIC register that holds the low half of the redirection entry of `irq`.
pub open spec fn redirection_low(irq: u32) -> int {
    0x10 + irq * 2
}

/// The accesses that redirect input `irq` of an I/O APIC to `vector` on the
/// bootstrap core (fixed delivery, physical destination 0, unmasked), then
/// select the low half again and read it back.
pub open spec fn redirection_plan(irq: u32, vector: u8) -> Seq<IoApicAccess> {
    seq![
        IoApicAccess::Select(redirection_low(irq) as u32),
        IoApicAccess::Write(vector as u32),
        IoApicAccess::Select((redirection_low(irq) + 1) as u32),
        IoApicAccess::Write(0),
        IoApicAccess::Select(redirection_low(irq) as u32),
        IoApicAccess::Read,
    ]
}

/// The accesses that redirect input `irq` to `vector` (see `redirection_plan`).
pub fn set_ioapic_redirection(irq: u32, vector: u8) -> (r: Vec<IoApicAccess>)
    requires
        redirection_low(irq) + 1 <= u32::MAX,
    ensures
        r@ == redirection_plan(irq, vector),
{
    let entry_low = 0x10 + (irq * 2);
    let entry_high = 0x10 + (irq * 2 + 1);
    let low_val = vector as u32;
    let high_val = 0u32;
    let mut a: Vec<IoApicAccess> = Vec::new();
    a.push(IoApicAccess::Select(entry_low));
    a.push(IoApicAccess::Write(low_val));
    a.push(IoApicAccess::Select(entry_high));
    a.push(IoApicAccess::Write(high_val));
    a.push(IoApicAccess::Select(entry_low));
    a.push(IoApicAccess::Read);
    assert(a@ =~= redirection_plan(irq, vector));
    a
}

/// The register that an access selects, if it is a selection.
pub open spec fn selected_register(a: IoApicAccess) -> Option<u32> {
    match a {
        IoApicAccess::Select(r) => Some(r),
        _ => None,
    }
}

/// The redirection table of an I/O APIC starts at register 0x10 and gives
/// each input a pair of registers, low half then high half, right after the
/// pair of the input before it; so distinct inputs never share a register.
/// Redirecting an input selects the low half, writes the vector, selects the
/// high half, writes 0, and selects the low half again to read it back.
pub proof fn lemma_redirection_registers(irq: u32, other: u32, vector: u8)
    requires
        irq < 0x7FFF_FFF0,
        other < 0x7FFF_FFF0,
    ensures
        selected_register(redirection_plan(0, vector)[0]) == Some(0x10u32),
        selected_register(redirection_plan(0, vector)[2]) == Some(0x11u32),
        selected_register(redirection_plan((irq + 1) as u32, vector)[0])->0 == selected_register(
            redirection_plan(irq, vector)[0],
        )->0 + 2,
        selected_register(redirection_plan(irq, vector)[2])->0 == selected_register(
            redirection_plan(irq, vector)[0],
        )->0 + 1,
        redirection_plan(irq, vector).len() == 6,
        redirection_plan(irq, vector)[1] == IoApicAccess::Write(vector as u32),
        redirection_plan(irq, vector)[3] == IoApicAccess::Write(0),
        redirection_plan(irq, vector)[4] == redirection_plan(irq, vector)[0],
        redirection_plan(irq, vector)[5] == IoApicAccess::Read,
        irq != other ==> {
            let lo = selected_register(redirection_plan(irq, vector)[0])->0;
            let hi = selected_register(redirection_plan(irq, vector)[2])->0;
            let olo = selected_register(redirection_plan(other, vector)[0])->0;
            let ohi = selected_register(redirection_plan(other, vector)[2])->0;
            lo != olo && lo != ohi && hi != olo && hi != ohi
        },
{
}

/// Whether a redirection entry read back from an I/O APIC is unmasked (bit 16 clear).
pub fn redirection_enabled(entry_low: u32) -> (r: bool)
    ensures
        r == ((entry_low >> 16u32) & 1 == 0),
{
    (entry_low >> 16u32) & 1 == 0
}

/// The accesses with which the kernel first programs the I/O APIC: select
/// register 0x12 (the low half of input 1's redirection entry) and write the
/// keyboard vector there.
pub fn init_io_apic() -> (r: Vec<IoApicAccess>)
    ensures
        r@ == seq![
            IoApicAccess::Select(0x12),
            IoApicAccess::Write(interrupt_vector(InterruptIndex::Keyboard) as u32),
        ],
{
    let mut a: Vec<IoApicAccess> = Vec::new();
    a.push(IoApicAccess::Select(0x12));
    a.push(IoApicAccess::Write(InterruptIndex::Keyboard.as_u32()));
    a
}

/// An I/O APIC that the ACPI tables describe.
#[derive(Clone, Copy, PartialEq, Eq, Structural)]
pub struct IoApicInfo {
    pub id: u8,
    pub address: u32,
    pub global_system_interrupt_base: u32,
}

/// An ACPI interrupt source override: ISA IRQ `isa_source` arrives on global
/// system interrupt `global_system_interrupt`.
#[derive(Clone, Copy, PartialEq, Eq, Structural)]
pub struct SourceOverride {
    pub isa_source: u8,
    pub global_system_interrupt: u32,
}

/// The interrupt model that the ACPI tables describe.
pub enum InterruptModelInfo {
    /// No APIC described (legacy PIC only).
    Unknown,
    /// APIC-based: the local APIC address, the I/O APICs and the ISA overrides.
    Apic {
        local_apic_address: u64,
        io_apics: Vec<IoApicInfo>,
        interrupt_source_overrides: Vec<SourceOverride>,
    },
}

/// Where the keyboard is routed through an I/O APIC.
#[derive(Clone, Copy, PartialEq, Eq, Structural)]
pub struct IoApicRoute {
    /// Physical address of the I/O APIC (its page is identity-mapped).
    pub address: u32,
    /// The I/O APIC input that carries the keyboard.
    pub keyboard_irq: u32,
}

/// What the kernel sets up from the ACPI interrupt model.
#[derive(Clone, Copy, PartialEq, Eq, Structural)]
pub struct InterruptRouting {
    /// Physical address of the local APIC to map for the bootstrap core (0 when none is described).
    pub lapic_addr: u32,
    /// The I/O APIC through which the keyboard is routed, if the model is APIC-based.
    pub io_apic: Option<IoApicRoute>,
}

/// The input of the keyboard (ISA IRQ 1): the global system interrupt of the
/// last override of ISA IRQ 1, or 1 when none overrides it.
pub open spec fn keyboard_gsi(overrides: Seq<SourceOverride>) -> u32
    decreases overrides.len(),
{
    if overrides.len() == 0 {
        1
    } else if overrides.last().isa_source == 1 {
        overrides.last().global_system_interrupt
    } else {
        keyboard_gsi(overrides.drop_last())
    }
}

/// The routing that follows from an ACPI interrupt model.
pub open spec fn routing_of(local_apic_address: u64, first_io_apic: IoApicInfo, overrides: Seq<SourceOverride>) -> InterruptRouting {
    InterruptRouting {
        lapic_addr: local_apic_address as u32,
        io_apic: Some(IoApicRoute { address: first_io_apic.address, keyboard_irq: keyboard_gsi(overrides) }),
    }
}

/// What the kernel sets up from the ACPI interrupt model: for an APIC model,
/// the local APIC address (truncated to 32 bits) and the first I/O APIC, with
/// the keyboard on the input that the overrides give ISA IRQ 1; for an
/// unknown model, local APIC address 0 and no I/O APIC.
pub fn init_acpi(model: &InterruptModelInfo) -> (r: InterruptRouting)
    requires
        model matches InterruptModelInfo::Apic { io_apics, .. } ==> io_apics@.len() > 0,
    ensures
        match model {
            InterruptModelInfo::Unknown => r == (InterruptRouting { lapic_addr: 0, io_apic: None }),
            InterruptModelInfo::Apic { local_apic_address, io_apics, interrupt_source_overrides } =>
                r == routing_of(*local_apic_address, io_apics@[0], interrupt_source_overrides@),
        },
{
    match model {
        InterruptModelInfo::Unknown => InterruptRouting { lapic_addr: 0, io_apic: None },
        InterruptModelInfo::Apic { local_apic_address, io_apics, interrupt_source_overrides } => {
            let lapic_addr = *local_apic_address as u32;
            let io_apic = io_apics[0];
            let mut keyboard_irq: u32 = 1;
            let mut i: usize = 0;
            while i < interrupt_source_overrides.len()
                invariant
                    i <= interrupt_source_overrides@.len(),
                    keyboard_irq == keyboard_gsi(interrupt_source_overrides@.take(i as int)),
                decreases interrupt_source_overrides.len() - i,
            {
                let iso = interrupt_source_overrides[i];
                if iso.isa_source == 1 {
                    keyboard_irq = iso.global_system_interrupt;
                }
                assert(interrupt_source_overrides@.take(i as int + 1).drop_last()
                    =~= interrupt_source_overrides@.take(i as int));
                i = i + 1;
            }
            assert(interrupt_source_overrides@.take(i as int) =~= interrupt_source_overrides@);
            InterruptRouting {
                lapic_addr,
                io_apic: Some(IoApicRoute { address: io_apic.address, keyboard_irq }),
            }
        },
    }
}

/// The keyboard input is the one that the last override of ISA IRQ 1 names,
/// and it stays on 1 when no override names ISA IRQ 1.
pub proof fn lemma_keyboard_gsi(overrides: Seq<SourceOverride>)
    ensures
        (forall|i: int| 0 <= i < overrides.len() ==> #[trigger] overrides[i].isa_source != 1)
            ==> keyboard_gsi(overrides) == 1,
        (exists|i: int| 0 <= i < overrides.len() && #[trigger] overrides[i].isa_source == 1)
            ==> (exists|i: int|
            0 <= i < overrides.len() && #[trigger] overrides[i].isa_source == 1
                && overrides[i].global_system_interrupt == keyboard_gsi(overrides)
                && forall|j: int| i < j < overrides.len() ==> #[trigger] overrides[j].isa_source != 1),
    decreases overrides.len(),
{
    if overrides.len() > 0 {
        let rest = overrides.drop_last();
        lemma_keyboard_gsi(rest);
        if overrides.last().isa_source == 1 {
            assert(overrides[overrides.len() - 1].isa_source == 1);
        } else {
            assert forall|i: int| 0 <= i < rest.len() implies #[trigger] rest[i] == overrides[i] by {}
            if exists|i: int| 0 <= i < overrides.len() && #[trigger] overrides[i].isa_source == 1 {
                let k = choose|i: int| 0 <= i < overrides.len() && #[trigger] overrides[i].isa_source == 1;
                assert(rest[k].isa_source == 1);
                let w = choose|i: int|
                    0 <= i < rest.len() && #[trigger] rest[i].isa_source == 1
                        && rest[i].global_system_interrupt == keyboard_gsi(rest)
                        && forall|j: int| i < j < rest.len() ==> #[trigger] rest[j].isa_source != 1;
                assert(overrides[w].isa_source == 1);
                assert forall|j: int| w < j < overrides.len() implies #[trigger] overrides[j].isa_source != 1 by {
                    if j < rest.len() {
                        assert(rest[j].isa_source != 1);
                    }
                }
            }
        }
    }
}

/// The page (4 KiB) that holds an identity-mapped APIC register window.
pub open spec fn mmio_page(phys: u32) -> u64 {
    (phys as u64) & !0xFFFu64
}

/// x86_64's `Page::<Size4KiB>::containing_address` on `VirtAddr::new(phys)`,
/// read back with `start_address().as_u64()`: the start of the 4 KiB page
/// that holds `phys` (the address aligned down to 4096). An address below
/// 2^32 is canonical, so `VirtAddr::new` does not panic.
#[verifier::external_body]
fn containing_page_start(phys: u32) -> (r: u64)
    ensures
        r == (phys as u64) & !0xFFFu64,
{
    Page::<Size4KiB>::containing_address(VirtAddr::new(phys as u64)).start_address().as_u64()
}

/// The virtual address at which an APIC register window at physical address
/// `phys_address` is identity-mapped: the start of its page.
pub fn map_apic_mem(phys_address: u32) -> (r: u64)
    ensures
        r == mmio_page(phys_address),
{
    containing_page_start(phys_address)
}

/// The CPU exceptions for which the kernel installs a handler.
#[derive(Clone, Copy, Debug, PartialEq, Eq, Structural)]
pub enum CpuException {
    DivideError,
    Debug,
    NonMaskableInterrupt,
    Breakpoint,
    Overflow,
    BoundRangeExceeded,
    InvalidOpcode,
    DeviceNotAvailable,
    DoubleFault,
    InvalidTss,
    SegmentNotPresent,
    StackSegmentFault,
    GeneralProtectionFault,
    PageFault,
    AlignmentCheck,
    SimdFloatingPoint,
}

/// The vector that the architecture gives an exception.
pub open spec fn exception_vector(e: CpuException) -> u8 {
    match e {
        CpuException::DivideError => 0,
        CpuException::Debug => 1,
        CpuException::NonMaskableInterrupt => 2,
        CpuException::Breakpoint => 3,
        CpuException::Overflow => 4,
        CpuException::BoundRangeExceeded => 5,
        CpuException::InvalidOpcode => 6,
        CpuException::DeviceNotAvailable => 7,
        CpuException::DoubleFault => 8,
        CpuException::InvalidTss => 10,
        CpuException::SegmentNotPresent => 11,
        CpuException::StackSegmentFault => 12,
        CpuException::GeneralProtectionFault => 13,
        CpuException::PageFault => 14,
        CpuException::AlignmentCheck => 17,
        CpuException::SimdFloatingPoint => 19,
    }
}

/// The name under which the handler of an exception reports it.
pub open spec fn exception_title(e: CpuException) -> Seq<char> {
    match e {
        CpuException::DivideError => "DIVIDE BY ZERO"@,
        CpuException::Debug => "DEBUG"@,
        CpuException::NonMaskableInterrupt => "NON-MASKABLE INTERRUPT"@,
        CpuException::Breakpoint => "BREAKPOINT"@,
        CpuException::Overflow => "OVERFLOW"@,
        CpuException::BoundRangeExceeded => "BOUND RANGE EXCEEDED"@,
        CpuException::InvalidOpcode => "INVALID OPCODE"@,
        CpuException::DeviceNotAvailable => "DEVICE NOT AVAILABLE"@,
        CpuException::DoubleFault => "DOUBLE FAULT"@,
        CpuException::InvalidTss => "INVALID TSS"@,
        CpuException::SegmentNotPresent => "SEGMENT NOT PRESENT"@,
        CpuException::StackSegmentFault => "STACK SEGMENT FAULT"@,
        CpuException::GeneralProtectionFault => "GENERAL PROTECTION FAULT"@,
        CpuException::PageFault => "PAGE FAULT"@,
        CpuException::AlignmentCheck => "ALIGNMENT CHECK"@,
        CpuException::SimdFloatingPoint => "SIMD FLOATING POINT"@,
    }
}

/// Whether execution goes on after the handler: only debug traps and
/// breakpoints return; every other handler halts the core (a double fault panics).
pub open spec fn exception_resumes(e: CpuException) -> bool {
    e == CpuException::Debug || e == CpuException::Breakpoint
}

/// Whether the handler prints the error code that the CPU pushed, as a decimal number.
pub open spec fn reports_error_code(e: CpuException) -> bool {
    match e {
        CpuException::InvalidTss | CpuException::SegmentNotPresent
        | CpuException::StackSegmentFault | CpuException::GeneralProtectionFault
        | CpuException::AlignmentCheck => true,
        _ => false,
    }
}

/// The first lines that the handler of `e` prints, before the stack frame.
pub open spec fn exception_report_text(e: CpuException, error_code: u64) -> Seq<char> {
    "EXCEPTION: "@ + exception_title(e) + if reports_error_code(e) {
        "\nError Code: "@ + decimal(error_code as nat)
    } else {
        Seq::empty()
    }
}

impl CpuException {
    /// The vector of the exception.
    pub fn vector(&self) -> (r: u8)
        ensures
            r == exception_vector(*self),
    {
        match self {
            CpuException::DivideError => 0,
            CpuException::Debug => 1,
            CpuException::NonMaskableInterrupt => 2,
            CpuException::Breakpoint => 3,
            CpuException::Overflow => 4,
            CpuException::BoundRangeExceeded => 5,
            CpuException::InvalidOpcode => 6,
            CpuException::DeviceNotAvailable => 7,
            CpuException::DoubleFault => 8,
            CpuException::InvalidTss => 10,
            CpuException::SegmentNotPresent => 11,
            CpuException::StackSegmentFault => 12,
            CpuException::GeneralProtectionFault => 13,
            CpuException::PageFault => 14,
            CpuException::AlignmentCheck => 17,
            CpuException::SimdFloatingPoint => 19,
        }
    }

    /// The name under which the handler reports the exception.
    pub fn title(&self) -> (r: &'static str)
        ensures
            r@ == exception_title(*self),
    {
        match self {
            CpuException::DivideError => "DIVIDE BY ZERO",
            CpuException::Debug => "DEBUG",
            CpuException::NonMaskableInterrupt => "NON-MASKABLE INTERRUPT",
            CpuException::Breakpoint => "BREAKPOINT",
            CpuException::Overflow => "OVERFLOW",
            CpuException::BoundRangeExceeded => "BOUND RANGE EXCEEDED",
            CpuException::InvalidOpcode => "INVALID OPCODE",
            CpuException::DeviceNotAvailable => "DEVICE NOT AVAILABLE",
            CpuException::DoubleFault => "DOUBLE FAULT",
            CpuException::InvalidTss => "INVALID TSS",
            CpuException::SegmentNotPresent => "SEGMENT NOT PRESENT",
            CpuException::StackSegmentFault => "STACK SEGMENT FAULT",
            CpuException::GeneralProtectionFault => "GENERAL PROTECTION FAULT",
            CpuException::PageFault => "PAGE FAULT",
            CpuException::AlignmentCheck => "ALIGNMENT CHECK",
            CpuException::SimdFloatingPoint => "SIMD FLOATING POINT",
        }
    }

    /// Whether execution goes on after the handler.
    pub fn resumes(&self) -> (r: bool)
        ensures
            r == exception_resumes(*self),
    {
        match self {
            CpuException::Debug | CpuException::Breakpoint => true,
            _ => false,
        }
    }

    /// Whether the handler prints the pushed error code.
    pub fn reports_error_code(&self) -> (r: bool)
        ensures
            r == reports_error_code(*self),
    {
        match self {
            CpuException::InvalidTss | CpuException::SegmentNotPresent
            | CpuException::StackSegmentFault | CpuException::GeneralProtectionFault
            | CpuException::AlignmentCheck => true,
            _ => false,
        }
    }
}

/// The first lines that the handler of `e` prints, before the stack frame:
/// `EXCEPTION: ` and the exception's name, then the error code where the
/// handler reports one.
pub fn exception_report(e: CpuException, error_code: u64) -> (r: String)
    ensures
        r@ == exception_report_text(e, error_code),
{
    let mut s = String::from_str("EXCEPTION: ");
    s.append(e.title());
    if e.reports_error_code() {
        s.append("\nError Code: ");
        push_decimal(&mut s, error_code);
    }
    proof {
        reveal_strlit("EXCEPTION: ");
        reveal_strlit("\nError Code: ");
    }
    s
}

/// What an entry of the interrupt descriptor table dispatches to.
#[derive(Clone, Copy, Debug, PartialEq, Eq, Structural)]
pub enum IdtHandler {
    Exception(CpuException),
    Hardware(InterruptIndex),
}

/// One entry of the interrupt descriptor table.
#[derive(Clone, Copy, Debug, PartialEq, Eq, Structural)]
pub struct IdtEntry {
    pub vector: u8,
    pub handler: IdtHandler,
    /// The interrupt stack table slot that the CPU switches to, if any.
    pub stack_index: Option<u16>,
}

/// The vector that a handler is installed at.
pub open spec fn handler_vector(h: IdtHandler) -> u8 {
    match h {
        IdtHandler::Exception(e) => exception_vector(e),
        IdtHandler::Hardware(i) => interrupt_vector(i),
    }
}

/// The entry of a handler: at its vector, and, for the double fault alone, on
/// the dedicated interrupt stack.
pub open spec fn idt_entry(h: IdtHandler) -> IdtEntry {
    IdtEntry {
        vector: handler_vector(h),
        handler: h,
        stack_index: if h == IdtHandler::Exception(CpuException::DoubleFault) {
            Some(DOUBLE_FAULT_IST_INDEX)
        } else {
            None
        },
    }
}

/// The handlers that the kernel installs, in the order it installs them.
pub open spec fn installed_handlers() -> Seq<IdtHandler> {
    seq![
        IdtHandler::Exception(CpuException::DivideError),
        IdtHandler::Exception(CpuException::Debug),
        IdtHandler::Exception(CpuException::NonMaskableInterrupt),
        IdtHandler::Exception(CpuException::Breakpoint),
        IdtHandler::Exception(CpuException::Overflow),
        IdtHandler::Exception(CpuException::BoundRangeExceeded),
        IdtHandler::Exception(CpuException::InvalidOpcode),
        IdtHandler::Exception(CpuException::DeviceNotAvailable),
        IdtHandler::Exception(CpuException::AlignmentCheck),
        IdtHandler::Exception(CpuException::InvalidTss),
        IdtHandler::Exception(CpuException::SegmentNotPresent),
        IdtHandler::Exception(CpuException::StackSegmentFault),
        IdtHandler::Exception(CpuException::GeneralProtectionFault),
        IdtHandler::Exception(CpuException::PageFault),
        IdtHandler::Exception(CpuException::SimdFloatingPoint),
        IdtHandler::Hardware(InterruptIndex::Timer),
        IdtHandler::Hardware(InterruptIndex::Keyboard),
        IdtHandler::Exception(CpuException::DoubleFault),
    ]
}

/// The interrupt descriptor table of the kernel, entry by entry.
pub open spec fn idt_layout() -> Seq<IdtEntry> {
    installed_handlers().map_values(|h: IdtHandler| idt_entry(h))
}

fn entry_for(h: IdtHandler) -> (r: IdtEntry)
    ensures
        r == idt_entry(h),
{
    let vector = match h {
        IdtHandler::Exception(e) => e.vector(),
        IdtHandler::Hardware(i) => i.as_u8(),
    };
    let stack_index = match h {
        IdtHandler::Exception(CpuException::DoubleFault) => Some(DOUBLE_FAULT_IST_INDEX),
        _ => None,
    };
    IdtEntry { vector, handler: h, stack_index }
}

/// The entries of the interrupt descriptor table that the kernel loads.
pub fn init_idt() -> (r: Vec<IdtEntry>)
    ensures
        r@ == idt_layout(),
{
    let handlers: Vec<IdtHandler> = vec![
        IdtHandler::Exception(CpuException::DivideError),
        IdtHandler::Exception(CpuException::Debug),
        IdtHandler::Exception(CpuException::NonMaskableInterrupt),
        IdtHandler::Exception(CpuException::Breakpoint),
        IdtHandler::Exception(CpuException::Overflow),
        IdtHandler::Exception(CpuException::BoundRangeExceeded),
        IdtHandler::Exception(CpuException::InvalidOpcode),
        IdtHandler::Exception(CpuException::DeviceNotAvailable),
        IdtHandler::Exception(CpuException::AlignmentCheck),
        IdtHandler::Exception(CpuException::InvalidTss),
        IdtHandler::Exception(CpuException::SegmentNotPresent),
        IdtHandler::Exception(CpuException::StackSegmentFault),
        IdtHandler::Exception(CpuException::GeneralProtectionFault),
        IdtHandler::Exception(CpuException::PageFault),
        IdtHandler::Exception(CpuException::SimdFloatingPoint),
        IdtHandler::Hardware(InterruptIndex::Timer),
        IdtHandler::Hardware(InterruptIndex::Keyboard),
        IdtHandler::Exception(CpuException::DoubleFault),
    ];
    assert(handlers@ =~= installed_handlers());
    let mut entries: Vec<IdtEntry> = Vec::new();
    let mut i: usize = 0;
    while i < handlers.len()
        invariant
            i <= handlers@.len(),
            handlers@ == installed_handlers(),
            entries@ =~= idt_layout().subrange(0, i as int),
        decreases handlers.len() - i,
    {
        entries.push(entry_for(handlers[i]));
        i = i + 1;
    }
    entries
}

/// Every handler of the table sits at the vector that the architecture gives
/// it: divide error 0, debug 1, NMI 2, breakpoint 3, overflow 4, bound range
/// 5, invalid opcode 6, device not available 7, double fault 8, invalid TSS
/// 10, segment not present 11, stack-segment fault 12, general protection 13,
/// page fault 14, alignment check 17, SIMD floating point 19; the timer and
/// the keyboard, the first two vectors after the exceptions, 32 and 33.
pub proof fn lemma_idt_vectors_architectural()
    ensures
        forall|i: int| 0 <= i < idt_layout().len() ==> {
            let e = #[trigger] idt_layout()[i];
            &&& e.handler == IdtHandler::Exception(CpuException::DivideError) ==> e.vector == 0
            &&& e.handler == IdtHandler::Exception(CpuException::Debug) ==> e.vector == 1
            &&& e.handler == IdtHandler::Exception(CpuException::NonMaskableInterrupt) ==> e.vector == 2
            &&& e.handler == IdtHandler::Exception(CpuException::Breakpoint) ==> e.vector == 3
            &&& e.handler == IdtHandler::Exception(CpuException::Overflow) ==> e.vector == 4
            &&& e.handler == IdtHandler::Exception(CpuException::BoundRangeExceeded) ==> e.vector == 5
            &&& e.handler == IdtHandler::Exception(CpuException::InvalidOpcode) ==> e.vector == 6
            &&& e.handler == IdtHandler::Exception(CpuException::DeviceNotAvailable) ==> e.vector == 7
            &&& e.handler == IdtHandler::Exception(CpuException::DoubleFault) ==> e.vector == 8
            &&& e.handler == IdtHandler::Exception(CpuException::InvalidTss) ==> e.vector == 10
            &&& e.handler == IdtHandler::Exception(CpuException::SegmentNotPresent) ==> e.vector == 11
            &&& e.handler == IdtHandler::Exception(CpuException::StackSegmentFault) ==> e.vector == 12
            &&& e.handler == IdtHandler::Exception(CpuException::GeneralProtectionFault) ==> e.vector == 13
            &&& e.handler == IdtHandler::Exception(CpuException::PageFault) ==> e.vector == 14
            &&& e.handler == IdtHandler::Exception(CpuException::AlignmentCheck) ==> e.vector == 17
            &&& e.handler == IdtHandler::Exception(CpuException::SimdFloatingPoint) ==> e.vector == 19
            &&& e.handler == IdtHandler::Hardware(InterruptIndex::Timer) ==> e.vector == 32
            &&& e.handler == IdtHandler::Hardware(InterruptIndex::Keyboard) ==> e.vector == 33
        },
        forall|i: int, j: int|
            0 <= i < idt_layout().len() && 0 <= j < idt_layout().len() && #[trigger] idt_layout()[i].handler
                == #[trigger] idt_layout()[j].handler ==> i == j,
        idt_layout().len() == 18,
{
    let l = idt_layout();
    let h = installed_handlers();
    assert(l.len() == 18);
    assert forall|i: int| 0 <= i < 18 implies l[i] == idt_entry(h[i]) by {}
}

/// The table that the kernel loads is well formed: no two entries share a
/// vector, exceptions sit below vector 32 and hardware interrupts at 32 or
/// above, and the double fault alone runs on an interrupt stack, in slot
/// `DOUBLE_FAULT_IST_INDEX`, one of the seven that a task state segment holds.
pub proof fn lemma_idt_layout()
    ensures
        forall|i: int, j: int|
            0 <= i < j < idt_layout().len() ==> idt_layout()[i].vector != idt_layout()[j].vector,
        forall|i: int|
            0 <= i < idt_layout().len() ==> (idt_layout()[i].vector < 32 <==> idt_layout()[i].handler is Exception),
        forall|i: int|
            0 <= i < idt_layout().len() ==> (idt_layout()[i].stack_index is Some <==> idt_layout()[i].handler
                == IdtHandler::Exception(CpuException::DoubleFault)),
        forall|i: int|
            0 <= i < idt_layout().len() && idt_layout()[i].stack_index is Some ==> idt_layout()[i].stack_index
                == Some(DOUBLE_FAULT_IST_INDEX),
        DOUBLE_FAULT_IST_INDEX < 7,
{
    let l = idt_layout();
    let vs = seq![0u8, 1, 2, 3, 4, 5, 6, 7, 17, 10, 11, 12, 13, 14, 19, 32, 33, 8];
    assert(l.len() == 18);
    assert forall|i: int| 0 <= i < 18 implies l[i].vector == vs[i] by {
        assert(l[i] == idt_entry(installed_handlers()[i]));
    }
    assert forall|i: int, j: int| 0 <= i < j < 18 implies vs[i] != vs[j] by {}
}

} // verus!
