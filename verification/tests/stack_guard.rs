use bigos::stack_guard::{
    split_huge_entry, split_is_valid, unmap_guard_page, GuardError, GuardStep, GuardWalkState,
};

// A virtual address with indices 1 (PML4), 2 (PDPT), 3 (PD), 4 (PT).
const VADDR: u64 = (1 << 39) | (2 << 30) | (3 << 21) | (4 << 12);

fn expect_read(step: &GuardStep, table: u64, index: u64) {
    match step {
        GuardStep::ReadEntry { table: t, index: i } => {
            assert_eq!(*t, table);
            assert_eq!(*i, index);
        }
        _ => panic!("expected a read"),
    }
}

fn expect_failure(step: &GuardStep, err: GuardError) {
    match step {
        GuardStep::Failed(e) => assert!(*e == err),
        _ => panic!("expected a failure"),
    }
}

#[test]
fn walk_to_a_4k_page_clears_its_entry() {
    let (mut walk, step) = unmap_guard_page(VADDR, 0x1000);
    expect_read(&step, 0x1000, 1);
    let step = walk.on_entry(0x2000 | 0x3);
    expect_read(&step, 0x2000, 2);
    let step = walk.on_entry(0x3000 | 0x3);
    expect_read(&step, 0x3000, 3);
    let step = walk.on_entry(0x8000_0000_0004_0003);
    expect_read(&step, 0x4_0000, 4);
    let step = walk.on_entry(0x5000 | 0x3);
    match step {
        GuardStep::ClearEntry { table, index, vaddr } => {
            assert_eq!(table, 0x4_0000);
            assert_eq!(index, 4);
            assert_eq!(vaddr, VADDR);
        }
        _ => panic!("expected the entry to be cleared"),
    }
    assert!(walk.state == GuardWalkState::Finished);
}

#[test]
fn walk_failures() {
    let (mut walk, _) = unmap_guard_page(VADDR, 0x1000);
    expect_failure(&walk.on_entry(0), GuardError::P4Unused);

    let (mut walk, _) = unmap_guard_page(VADDR, 0x1000);
    walk.on_entry(0x2003);
    expect_failure(&walk.on_entry(0), GuardError::PdptUnused);

    let (mut walk, _) = unmap_guard_page(VADDR, 0x1000);
    walk.on_entry(0x2003);
    expect_failure(&walk.on_entry(0x4000_0000 | 0x83), GuardError::PdptHuge);

    let (mut walk, _) = unmap_guard_page(VADDR, 0x1000);
    walk.on_entry(0x2003);
    walk.on_entry(0x3003);
    expect_failure(&walk.on_entry(0), GuardError::PdUnused);

    let (mut walk, _) = unmap_guard_page(VADDR, 0x1000);
    walk.on_entry(0x2003);
    walk.on_entry(0x3003);
    walk.on_entry(0x4003);
    expect_failure(&walk.on_entry(0), GuardError::PtUnused);
}

#[test]
fn error_messages() {
    assert_eq!(GuardError::P4Unused.message(), "p4 entry unused");
    assert_eq!(GuardError::PdptUnused.message(), "pdpt entry unused");
    assert_eq!(GuardError::PdptHuge.message(), "pdpt huge page not supported for guard");
    assert_eq!(GuardError::PdUnused.message(), "pd entry unused");
    assert_eq!(GuardError::OutOfFrames.message(), "out of frames for PT split");
    assert_eq!(GuardError::PtUnused.message(), "pt entry already unused (guard already unmapped?)");
}

#[test]
fn huge_page_is_split_around_the_guard() {
    let huge = 0x8000_0000_0040_0000 | 0x80 | 0x3;
    assert!(split_is_valid(huge));
    let (mut walk, _) = unmap_guard_page(VADDR, 0x1000);
    walk.on_entry(0x2003);
    walk.on_entry(0x3003);
    match walk.on_entry(huge) {
        GuardStep::AllocateFrame => {}
        _ => panic!("a 2 MiB page needs a new table"),
    }
    match walk.on_frame(Some(0x9000)) {
        GuardStep::InstallSplit { pt, entries, pd_table, pd_index, pd_entry } => {
            assert_eq!(pt, 0x9000);
            assert_eq!(pd_table, 0x3000);
            assert_eq!(pd_index, 3);
            assert_eq!(pd_entry, 0x9003);
            assert_eq!(entries.len(), 512);
            assert_eq!(entries[4], 0);
            assert_eq!(entries[0], 0x8000_0000_0040_0003);
            assert_eq!(entries[5], 0x8000_0000_0040_5003);
            assert_eq!(entries[511], 0x8000_0000_005F_F003);
        }
        _ => panic!("expected the split"),
    }
}

#[test]
fn split_needs_a_frame() {
    let (mut walk, _) = unmap_guard_page(VADDR, 0x1000);
    walk.on_entry(0x2003);
    walk.on_entry(0x3003);
    walk.on_entry(0x20_0083);
    expect_failure(&walk.on_frame(None), GuardError::OutOfFrames);
}

#[test]
fn split_entries_keep_the_mapping() {
    let huge = 0x0060_0000 | 0x80 | 0x7;
    let e = split_huge_entry(huge, 10);
    for i in 0..512u64 {
        if i == 10 {
            assert_eq!(e[i as usize], 0);
        } else {
            assert_eq!(e[i as usize] & 0x000f_ffff_ffff_f000, 0x60_0000 + i * 4096);
            assert_eq!(e[i as usize] & !0x000f_ffff_ffff_f000, 0x7);
        }
    }
}

#[test]
fn split_validity_limits() {
    // The last frame's virtual address must stay canonical.
    assert!(split_is_valid(0x7FFF_FFE0_0000 | 0x83));
    assert!(!split_is_valid(0x8000_0000_0000 | 0x83));
}
