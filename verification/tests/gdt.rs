use bigos::gdt::{
    execute_process_direct, install_guard_pages, tss_stacks, jump_to_userspace, ExecutionContext, IretFrame, ist0_bounds, ist0_guard_page, ist0_stack_top, rsp0_bounds, rsp0_guard_page,
    rsp0_stack_top, rsp_in_bounds, Gdt, GuardedKernelStack,
    GUARDED_STACK_SIZE, PER_CORE_STACK_SIZE,
};
use x86_64::structures::tss::TaskStateSegment;

const BASE: u64 = 0x20_0000;

#[test]
fn stack_layout() {
    assert_eq!(GUARDED_STACK_SIZE, 36864);
    assert_eq!(rsp0_guard_page(BASE, 0), BASE);
    assert_eq!(rsp0_bounds(BASE, 0), (BASE + 4096, BASE + 36864));
    assert_eq!(rsp0_stack_top(BASE, 0), BASE + 36864);
    assert_eq!(rsp0_guard_page(BASE, 3), BASE + 3 * 36864);
    assert_eq!(rsp0_stack_top(BASE, 3), BASE + 4 * 36864);
    assert_eq!(ist0_guard_page(0x9000, 1), 0x9000 + 36864);
    assert_eq!(ist0_bounds(0x9000, 1), (0x9000 + 36864 + 4096, 0x9000 + 2 * 36864));
    assert_eq!(ist0_stack_top(0x9000, 1), 0x9000 + 2 * 36864);
}

#[test]
fn guard_sits_right_below_the_stack() {
    for core in 0..4u8 {
        let (bottom, top) = rsp0_bounds(BASE, core);
        assert_eq!(rsp0_guard_page(BASE, core) + 4096, bottom);
        assert_eq!(top - bottom, PER_CORE_STACK_SIZE);
        assert_eq!(rsp0_guard_page(BASE, core) % 4096, 0);
    }
}

#[test]
fn stack_pointer_bounds() {
    let b = rsp0_bounds(BASE, 1);
    assert!(rsp_in_bounds(b.0, b));
    assert!(rsp_in_bounds(b.1, b));
    assert!(!rsp_in_bounds(b.0 - 1, b));
    assert!(!rsp_in_bounds(b.1 + 1, b));
}

#[test]
fn guard_pages_to_unmap() {
    let pages = install_guard_pages(BASE, 0x100_0000);
    assert_eq!(pages.len(), 8);
    assert_eq!(pages[0], BASE);
    assert_eq!(pages[1], 0x100_0000);
    assert_eq!(pages[6], BASE + 3 * 36864);
    assert_eq!(pages[7], 0x100_0000 + 3 * 36864);
}

#[test]
fn guarded_stack_starts_zeroed() {
    let s = Box::new(GuardedKernelStack::new());
    assert!(s.guard.iter().all(|b| *b == 0));
    assert!(s.stack.iter().all(|b| *b == 0));
}

#[test]
fn boot_table_selectors() {
    let g = Gdt::empty();
    assert_eq!(g.kernel_code_selector, 0x08);
    assert_eq!(g.kernel_data_selector, 0x10);
    assert_eq!(g.user_data_selector, 0x1B);
    assert_eq!(g.user_code_selector, 0x23);
    assert_eq!(g.tss_selector, 0x28);
    let raw: Vec<u64> = g.table.entries().iter().map(|e| e.raw()).collect();
    assert_eq!(raw, vec![0, 0x00af9b000000ffff, 0x00cf93000000ffff, 0x00cff3000000ffff, 0x00affb000000ffff, 0x00af9b000000ffff]);
}

fn core_gdt(core: u8) -> Gdt {
    let tss: &'static mut TaskStateSegment = Box::leak(Box::new(TaskStateSegment::new()));
    let stacks = tss_stacks(BASE, BASE + 4 * 36864, core);
    Gdt::new(tss, stacks)
}

#[test]
fn core_table_selectors() {
    let g = core_gdt(0);
    assert_eq!(g.kernel_code_selector, 0x08);
    assert_eq!(g.kernel_data_selector, 0x10);
    assert_eq!(g.user_data_selector, 0x1B);
    assert_eq!(g.user_code_selector, 0x23);
    assert_eq!(g.tss_selector, 0x28);
    assert_eq!(g.table.entries().len(), 7);
    assert_eq!(g.kernel_data_selector, g.kernel_code_selector + 8);
    assert_eq!(g.user_code_selector, g.user_data_selector + 8);
}

#[test]
fn tss_descriptor_is_a_ring0_system_segment() {
    let g = core_gdt(0);
    let low = g.table.entries()[5].raw();
    assert_eq!((low >> 45) & 3, 0);
    assert_eq!((low >> 40) & 0xF, 0b1001);
    assert_eq!((low >> 47) & 1, 1);
}

#[test]
fn entering_a_process() {
    let g = core_gdt(0);
    let f = jump_to_userspace(&g, 0x40_0000, 0x7fff_f000);
    assert!(f == IretFrame { rip: 0x40_0000, cs: 0x23, rflags: 0x202, rsp: 0x7fff_f000, ss: 0x1B });
    let ctx = ExecutionContext { rip: 0x40_1000, rsp: 0x7000_0000, page_table_base_phys: 0x12_3456 };
    let e = execute_process_direct(&ctx, &g);
    assert_eq!(e.page_table_frame, 0x12_3000);
    assert!(e.frame == IretFrame { rip: 0x40_1000, cs: 0x23, rflags: 0x202, rsp: 0x7000_0000, ss: 0x1B });
}

#[test]
fn tss_stacks_of_a_core() {
    let ist = BASE + 4 * 36864;
    let s = tss_stacks(BASE, ist, 2);
    assert_eq!(s.privilege_stack_0, rsp0_stack_top(BASE, 2));
    assert_eq!(s.privilege_stack_0, BASE + 3 * 36864);
    assert_eq!(s.double_fault_index, 0);
    assert_eq!(s.double_fault_stack, ist0_stack_top(ist, 2));
    // No ring-0 slot overlaps a double-fault slot.
    for a in 0..4u8 {
        for b in 0..4u8 {
            let (ra, rt) = (rsp0_guard_page(BASE, a), rsp0_stack_top(BASE, a));
            let (ia, it) = (ist0_guard_page(ist, b), ist0_stack_top(ist, b));
            assert!(rt <= ia || it <= ra);
        }
    }
}
