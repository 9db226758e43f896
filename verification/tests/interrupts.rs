use bigos::apic::RegisterWrite;
use bigos::cpuinfo::{decode_cpu_info, CpuidRegs};
use bigos::interrupts::{
    deadline_mode_writes, init_acpi, init_io_apic, init_keyboard, init_timer_for_core, interrupt_over,
    map_apic_mem, next_tsc_deadline, periodic_calibration_writes, periodic_mode_writes,
    periodic_timer_ticks, redirection_enabled, set_ioapic_redirection, system_uptime_ns,
    system_uptime_us, exception_report, init_idt, on_timer_interrupt, APICOffset, CpuException,
    IdtEntry, IdtHandler, InterruptIndex, InterruptModelInfo, IoApicAccess, IoApicInfo,
    LapicPtr, SourceOverride, TimerMode, TSC_CYCLES_PER_TICK,
};

#[test]
fn uptime_from_ticks() {
    assert_eq!(system_uptime_ns(0), 0);
    assert_eq!(system_uptime_ns(1), 500_000);
    assert_eq!(system_uptime_us(1), 500);
    assert_eq!(system_uptime_ns(2000), 1_000_000_000);
    assert_eq!(system_uptime_us(2000), 1_000_000);
    // The two clocks agree.
    for t in [0u64, 1, 7, 123456] {
        assert_eq!(system_uptime_ns(t), 1000 * system_uptime_us(t));
    }
}

#[test]
fn deadlines_are_one_tick_apart() {
    assert_eq!(TSC_CYCLES_PER_TICK, 1_200_000);
    assert_eq!(next_tsc_deadline(0), 1_200_000);
    assert_eq!(next_tsc_deadline(5), 1_200_005);
}

#[test]
fn interrupt_vectors() {
    assert_eq!(InterruptIndex::Timer.as_u8(), 32);
    assert_eq!(InterruptIndex::Keyboard.as_u8(), 33);
    assert_eq!(APICOffset::Eoi.offset(), 0xB0);
    assert_eq!(APICOffset::LvtE.offset(), 0x370);
    assert_eq!(APICOffset::Ir.word_index(), 8);
    assert_eq!(LapicPtr::null().address, 0);
}

#[test]
fn single_writes() {
    assert!(interrupt_over() == RegisterWrite { offset: 0xB0, value: 0 });
    assert!(init_keyboard() == RegisterWrite { offset: 0x360, value: 33 });
}

#[test]
fn timer_mode_follows_tsc_deadline_support() {
    let leaf0 = CpuidRegs { eax: 1, ebx: 0, ecx: 0, edx: 0 };
    let with = decode_cpu_info(leaf0, CpuidRegs { eax: 0, ebx: 0, ecx: 1 << 24, edx: 0 });
    let without = decode_cpu_info(leaf0, CpuidRegs { eax: 0, ebx: 0, ecx: 0, edx: 0 });
    assert!(init_timer_for_core(&with) == TimerMode::TscDeadline);
    assert!(init_timer_for_core(&without) == TimerMode::Periodic);
}

#[test]
fn deadline_mode_plan() {
    let w = deadline_mode_writes(0x12345600);
    assert_eq!(w.len(), 2);
    assert!(w[0] == RegisterWrite { offset: 0xF0, value: 0x123457FF });
    assert!(w[1] == RegisterWrite { offset: 0x320, value: 32 | (1 << 18) });
}

#[test]
fn periodic_mode_plan() {
    let c = periodic_calibration_writes();
    assert!(c[0] == RegisterWrite { offset: 0x3E0, value: 0 });
    assert!(c[1] == RegisterWrite { offset: 0x320, value: 32 });
    assert!(c[2] == RegisterWrite { offset: 0x380, value: 1_000_000 });
    // A countdown of one million that took 2.4 million TSC cycles: bus at 1 GHz,
    // timer at 62.5 MHz, so 31250 counts per 2 kHz tick.
    assert_eq!(periodic_timer_ticks(100, 2_400_100), 31_250);
    // A very fast countdown gives a count that is cut to 32 bits.
    assert_eq!(periodic_timer_ticks(0, 1), ((1_000_000u64 * 2_400_000_000 / 16 / 2000) as u32));
    let w = periodic_mode_writes(0, 31_250);
    assert_eq!(w.len(), 4);
    assert!(w[0] == RegisterWrite { offset: 0xF0, value: 0x1FF });
    assert!(w[1] == RegisterWrite { offset: 0x3E0, value: 3 });
    assert!(w[2] == RegisterWrite { offset: 0x320, value: 32 | (1 << 17) });
    assert!(w[3] == RegisterWrite { offset: 0x380, value: 31_250 });
}

#[test]
fn io_apic_plans() {
    let r = set_ioapic_redirection(1, 33);
    assert!(
        r == vec![
            IoApicAccess::Select(0x12),
            IoApicAccess::Write(33),
            IoApicAccess::Select(0x13),
            IoApicAccess::Write(0),
            IoApicAccess::Select(0x12),
            IoApicAccess::Read,
        ]
    );
    let first = init_io_apic();
    assert!(first == vec![IoApicAccess::Select(0x12), IoApicAccess::Write(33)]);
    assert!(redirection_enabled(33));
    assert!(!redirection_enabled(33 | (1 << 16)));
}

fn io_apic() -> IoApicInfo {
    IoApicInfo { id: 0, address: 0xFEC0_0000, global_system_interrupt_base: 0 }
}

#[test]
fn acpi_routing_without_overrides() {
    let model = InterruptModelInfo::Apic {
        local_apic_address: 0xFEE0_0000,
        io_apics: vec![io_apic()],
        interrupt_source_overrides: vec![],
    };
    let r = init_acpi(&model);
    assert_eq!(r.lapic_addr, 0xFEE0_0000);
    let route = r.io_apic.unwrap();
    assert_eq!(route.address, 0xFEC0_0000);
    assert_eq!(route.keyboard_irq, 1);
}

#[test]
fn acpi_routing_takes_last_keyboard_override() {
    let model = InterruptModelInfo::Apic {
        local_apic_address: 0x1_FEE0_0000,
        io_apics: vec![io_apic(), IoApicInfo { id: 1, address: 0xFEC1_0000, global_system_interrupt_base: 24 }],
        interrupt_source_overrides: vec![
            SourceOverride { isa_source: 0, global_system_interrupt: 2 },
            SourceOverride { isa_source: 1, global_system_interrupt: 9 },
            SourceOverride { isa_source: 1, global_system_interrupt: 17 },
            SourceOverride { isa_source: 9, global_system_interrupt: 20 },
        ],
    };
    let r = init_acpi(&model);
    // The local APIC address is cut to 32 bits, and the first I/O APIC is used.
    assert_eq!(r.lapic_addr, 0xFEE0_0000);
    let route = r.io_apic.unwrap();
    assert_eq!(route.address, 0xFEC0_0000);
    assert_eq!(route.keyboard_irq, 17);
}

#[test]
fn acpi_routing_unknown_model() {
    let r = init_acpi(&InterruptModelInfo::Unknown);
    assert_eq!(r.lapic_addr, 0);
    assert!(r.io_apic.is_none());
}

#[test]
fn apic_pages() {
    assert_eq!(map_apic_mem(0xFEC0_0123), 0xFEC0_0000);
    assert_eq!(map_apic_mem(0xFEE0_0000), 0xFEE0_0000);
    assert_eq!(map_apic_mem(0xFFF), 0);
}

#[test]
fn idt_entries() {
    let idt = init_idt();
    assert_eq!(idt.len(), 18);
    assert_eq!(
        idt[0],
        IdtEntry { vector: 0, handler: IdtHandler::Exception(CpuException::DivideError), stack_index: None }
    );
    assert_eq!(
        idt[8],
        IdtEntry { vector: 17, handler: IdtHandler::Exception(CpuException::AlignmentCheck), stack_index: None }
    );
    assert_eq!(
        idt[15],
        IdtEntry { vector: 32, handler: IdtHandler::Hardware(InterruptIndex::Timer), stack_index: None }
    );
    assert_eq!(
        idt[16],
        IdtEntry { vector: 33, handler: IdtHandler::Hardware(InterruptIndex::Keyboard), stack_index: None }
    );
    assert_eq!(
        idt[17],
        IdtEntry { vector: 8, handler: IdtHandler::Exception(CpuException::DoubleFault), stack_index: Some(0) }
    );
    // No vector is used twice, and only the double fault switches stacks.
    for a in 0..idt.len() {
        for b in (a + 1)..idt.len() {
            assert_ne!(idt[a].vector, idt[b].vector);
        }
        assert_eq!(idt[a].stack_index.is_some(), a == 17);
        assert_eq!(idt[a].vector < 32, matches!(idt[a].handler, IdtHandler::Exception(_)));
    }
}

#[test]
fn exception_reports() {
    assert_eq!(
        exception_report(CpuException::GeneralProtectionFault, 42),
        "EXCEPTION: GENERAL PROTECTION FAULT\nError Code: 42"
    );
    assert_eq!(exception_report(CpuException::Breakpoint, 7), "EXCEPTION: BREAKPOINT");
    assert_eq!(exception_report(CpuException::PageFault, 2), "EXCEPTION: PAGE FAULT");
    assert_eq!(exception_report(CpuException::InvalidTss, 0), "EXCEPTION: INVALID TSS\nError Code: 0");
    assert!(CpuException::Breakpoint.resumes());
    assert!(CpuException::Debug.resumes());
    assert!(!CpuException::DoubleFault.resumes());
    assert!(!CpuException::DivideError.resumes());
    assert_eq!(CpuException::SimdFloatingPoint.vector(), 19);
    assert_eq!(CpuException::DivideError.title(), "DIVIDE BY ZERO");
}

#[test]
fn timer_interrupt_counts_and_rearms() {
    let t = on_timer_interrupt(41, 1000);
    assert_eq!(t.ticks, 42);
    assert_eq!(t.deadline, 1_201_000);
    let w = on_timer_interrupt(u64::MAX, 0);
    assert_eq!(w.ticks, 0);
    // One more tick is one more tick duration of uptime.
    assert_eq!(system_uptime_ns(t.ticks), system_uptime_ns(41) + 500_000);
}

#[test]
fn uptime_differences_are_whole_ticks() {
    for (a, b) in [(0u64, 0u64), (3, 10), (1000, 1001)] {
        let d = system_uptime_ns(b) - system_uptime_ns(a);
        assert_eq!(d % 500_000, 0);
        assert_eq!(d, (b - a) * 500_000);
        assert_eq!((system_uptime_us(b) - system_uptime_us(a)) % 500, 0);
    }
}
