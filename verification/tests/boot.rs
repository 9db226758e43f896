use bigos::boot_common::{ap_core_entry_point, ap_cores_to_bootstrap, enable_sse_for_current_core, rsdp_physical_address};
use bigos::gdt::{jump_to_userspace, Gdt};
use bigos::{AP_CORE_COUNT, HHDM_OFFSET, MAX_CORES};

#[test]
fn rsdp_address() {
    assert_eq!(rsdp_physical_address(0xFFFF_8000_000E_0000, HHDM_OFFSET), 0xE_0000);
    assert_eq!(rsdp_physical_address(HHDM_OFFSET as usize, HHDM_OFFSET), 0);
}

#[test]
fn application_processors() {
    assert_eq!(ap_cores_to_bootstrap(4), vec![1, 2, 3]);
    assert_eq!(ap_cores_to_bootstrap(1), Vec::<u8>::new());
    assert_eq!(ap_cores_to_bootstrap(0), Vec::<u8>::new());
    assert_eq!(ap_cores_to_bootstrap(MAX_CORES as usize).len(), AP_CORE_COUNT as usize);
    assert_eq!(ap_cores_to_bootstrap(300)[255], 0);
    assert_eq!(ap_core_entry_point(2), Some(2));
    assert_eq!(ap_core_entry_point(0), None);
    assert_eq!(ap_core_entry_point(256), None);
    assert_eq!(ap_core_entry_point(257), Some(1));
}

#[test]
fn sse_control_bits() {
    assert_eq!(enable_sse_for_current_core(0x8000_0011, 0x20), (0x8000_0013, 0x620));
    assert_eq!(enable_sse_for_current_core(0x4, 0x600), (0x2, 0x600));
}

#[test]
fn user_mode_frame() {
    let g = Gdt::empty();
    let f = jump_to_userspace(&g, 0x40_1000, 0x7fff_f000);
    assert_eq!(f.rip, 0x40_1000);
    assert_eq!(f.cs, 0x23);
    assert_eq!(f.rflags, 0x202);
    assert_eq!(f.rsp, 0x7fff_f000);
    assert_eq!(f.ss, 0x1B);
}
