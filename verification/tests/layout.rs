use bringup::layout::{
    check_regions, AddressSpaceLayout, Cacheability, LayoutError, LayoutRow, MemoryRegion,
    Permissions, RegionFault, SizeUnit, Translation, ADDRESS_SPACE_END, BLOCK, GRANULE,
};

fn ram() -> MemoryRegion {
    MemoryRegion::identity(0x0000_0000, 0x0020_0000, Permissions::rwx(), Cacheability::Cacheable)
}

fn mmio() -> MemoryRegion {
    MemoryRegion::identity(0x3F00_0000, 0x3F01_0000, Permissions::rw(), Cacheability::Device)
}

#[test]
fn granule_and_block_sizes() {
    assert_eq!(GRANULE, 64 * 1024);
    assert_eq!(BLOCK, 512 * 1024 * 1024);
    assert_eq!(ADDRESS_SPACE_END, 1u64 << 48);
}

#[test]
fn permission_shorthands() {
    assert_eq!(Permissions::rwx(), Permissions { read: true, write: true, execute: true });
    assert_eq!(Permissions::rw(), Permissions { read: true, write: true, execute: false });
    assert_eq!(Permissions::rx(), Permissions { read: true, write: false, execute: true });
    assert_eq!(Permissions::ro(), Permissions { read: true, write: false, execute: false });
}

#[test]
fn constructors_set_translation() {
    let r = ram();
    assert_eq!(r.translation, Translation::Identity);
    assert_eq!(r.target(), 0);
    let remapped = MemoryRegion::remapped(
        0x1FFF_0000,
        0x2000_0000,
        0x3F20_0000,
        Permissions::rw(),
        Cacheability::Device,
    );
    assert_eq!(remapped.translation, Translation::Offset(0x3F20_0000));
    assert_eq!(remapped.target(), 0x3F20_0000);
    assert_eq!(remapped.start, 0x1FFF_0000);
    assert_eq!(remapped.end, 0x2000_0000);
}

#[test]
fn well_formed_region_has_no_fault() {
    assert_eq!(ram().check(), None);
    assert_eq!(mmio().check(), None);
}

#[test]
fn empty_region_is_rejected() {
    let same = MemoryRegion::identity(0x1_0000, 0x1_0000, Permissions::rw(), Cacheability::Cacheable);
    assert_eq!(same.check(), Some(RegionFault::Empty));
    let reversed = MemoryRegion::identity(0x2_0000, 0x1_0000, Permissions::rw(), Cacheability::Cacheable);
    assert_eq!(reversed.check(), Some(RegionFault::Empty));
}

#[test]
fn misaligned_start_is_rejected() {
    let r = MemoryRegion::identity(0x0000_1000, 0x0002_0000, Permissions::rw(), Cacheability::Cacheable);
    assert_eq!(r.check(), Some(RegionFault::MisalignedStart));
}

#[test]
fn misaligned_end_is_rejected() {
    let r = MemoryRegion::identity(0x0001_0000, 0x0002_0001, Permissions::rw(), Cacheability::Cacheable);
    assert_eq!(r.check(), Some(RegionFault::MisalignedEnd));
}

#[test]
fn start_fault_comes_before_end_fault() {
    let r = MemoryRegion::identity(0x0000_0001, 0x0002_0001, Permissions::rw(), Cacheability::Cacheable);
    assert_eq!(r.check(), Some(RegionFault::MisalignedStart));
}

#[test]
fn region_past_address_space_is_rejected() {
    let r = MemoryRegion::identity(
        ADDRESS_SPACE_END - GRANULE,
        ADDRESS_SPACE_END + GRANULE,
        Permissions::rw(),
        Cacheability::Cacheable,
    );
    assert_eq!(r.check(), Some(RegionFault::OutOfRange));
    let last = MemoryRegion::identity(
        ADDRESS_SPACE_END - GRANULE,
        ADDRESS_SPACE_END,
        Permissions::rw(),
        Cacheability::Cacheable,
    );
    assert_eq!(last.check(), None);
}

#[test]
fn misaligned_target_is_rejected() {
    let r = MemoryRegion::remapped(0x1_0000, 0x2_0000, 0x1234, Permissions::rw(), Cacheability::Device);
    assert_eq!(r.check(), Some(RegionFault::MisalignedTarget));
}

#[test]
fn target_past_address_space_is_rejected() {
    let r = MemoryRegion::remapped(
        0x1_0000,
        0x3_0000,
        ADDRESS_SPACE_END - GRANULE,
        Permissions::rw(),
        Cacheability::Device,
    );
    assert_eq!(r.check(), Some(RegionFault::TargetOutOfRange));
    let fits = MemoryRegion::remapped(
        0x1_0000,
        0x3_0000,
        ADDRESS_SPACE_END - 2 * GRANULE,
        Permissions::rw(),
        Cacheability::Device,
    );
    assert_eq!(fits.check(), None);
}

#[test]
fn intersects_is_symmetric_and_end_exclusive() {
    let a = MemoryRegion::identity(0x0, 0x2_0000, Permissions::rw(), Cacheability::Cacheable);
    let b = MemoryRegion::identity(0x1_0000, 0x3_0000, Permissions::rw(), Cacheability::Cacheable);
    let c = MemoryRegion::identity(0x2_0000, 0x3_0000, Permissions::rw(), Cacheability::Cacheable);
    assert!(a.intersects(&b));
    assert!(b.intersects(&a));
    assert!(!a.intersects(&c));
    assert!(!c.intersects(&a));
}

#[test]
fn check_regions_accepts_disjoint_aligned_regions() {
    assert_eq!(check_regions(&vec![ram(), mmio()]), Ok(()));
    assert_eq!(check_regions(&vec![mmio(), ram()]), Ok(()));
    assert_eq!(check_regions(&Vec::new()), Ok(()));
}

#[test]
fn check_regions_reports_first_offending_region() {
    let bad_one = MemoryRegion::identity(0x4000_0000, 0x4000_0800, Permissions::rw(), Cacheability::Cacheable);
    let bad_two = MemoryRegion::identity(0x5000_0001, 0x5001_0000, Permissions::rw(), Cacheability::Cacheable);
    let result = check_regions(&vec![ram(), bad_one, bad_two]);
    assert_eq!(
        result,
        Err(LayoutError { index: 1, region: bad_one, fault: RegionFault::MisalignedEnd })
    );
}

#[test]
fn check_regions_reports_overlap_with_earliest_region() {
    let a = MemoryRegion::identity(0x0, 0x2_0000, Permissions::rw(), Cacheability::Cacheable);
    let b = MemoryRegion::identity(0x4_0000, 0x6_0000, Permissions::rw(), Cacheability::Cacheable);
    let c = MemoryRegion::identity(0x1_0000, 0x5_0000, Permissions::rw(), Cacheability::Cacheable);
    let result = check_regions(&vec![a, b, c]);
    assert_eq!(
        result,
        Err(LayoutError { index: 2, region: c, fault: RegionFault::Overlap { with: 0 } })
    );
}

#[test]
fn own_fault_comes_before_overlap() {
    let a = MemoryRegion::identity(0x0, 0x2_0000, Permissions::rw(), Cacheability::Cacheable);
    let b = MemoryRegion::identity(0x1_0000, 0x1_8000, Permissions::rw(), Cacheability::Cacheable);
    let result = check_regions(&vec![a, b]);
    assert_eq!(
        result,
        Err(LayoutError { index: 1, region: b, fault: RegionFault::MisalignedEnd })
    );
}

#[test]
fn touching_regions_do_not_overlap() {
    let a = MemoryRegion::identity(0x0, 0x1_0000, Permissions::rw(), Cacheability::Cacheable);
    let b = MemoryRegion::identity(0x1_0000, 0x2_0000, Permissions::rw(), Cacheability::Cacheable);
    assert_eq!(check_regions(&vec![a, b]), Ok(()));
}

#[test]
fn layout_keeps_regions_in_given_order() {
    let layout = AddressSpaceLayout::new(vec![mmio(), ram()]).expect("valid layout");
    assert_eq!(layout.regions(), &vec![mmio(), ram()]);
}

#[test]
fn layout_rejects_what_check_regions_rejects() {
    let bad = MemoryRegion::identity(0x1, 0x1_0000, Permissions::rw(), Cacheability::Cacheable);
    match AddressSpaceLayout::new(vec![ram(), mmio(), bad]) {
        Ok(_) => panic!("a misaligned region was accepted"),
        Err(e) => {
            assert_eq!(e, LayoutError { index: 2, region: bad, fault: RegionFault::MisalignedStart })
        }
    }
}

#[test]
fn print_layout_lists_board_regions_in_order() {
    let layout = AddressSpaceLayout::new(vec![ram(), mmio()]).expect("valid layout");
    let rows = layout.print_layout();
    assert_eq!(
        rows,
        vec![
            LayoutRow {
                start: 0x0000_0000,
                end_inclusive: 0x001F_FFFF,
                size: 2,
                unit: SizeUnit::MiB,
                cacheability: Cacheability::Cacheable,
                permissions: Permissions::rwx(),
                identity: true,
            },
            LayoutRow {
                start: 0x3F00_0000,
                end_inclusive: 0x3F00_FFFF,
                size: 64,
                unit: SizeUnit::KiB,
                cacheability: Cacheability::Device,
                permissions: Permissions::rw(),
                identity: true,
            },
        ]
    );
    assert_eq!(layout.regions(), &vec![ram(), mmio()]);
}

#[test]
fn print_layout_rounds_sizes_down_and_uses_gib() {
    let big = MemoryRegion::identity(0x0, 0x6000_0000, Permissions::rw(), Cacheability::Cacheable);
    let odd = MemoryRegion::remapped(
        0x8000_0000,
        0x8019_0000,
        0x1_0000,
        Permissions::ro(),
        Cacheability::NonCacheable,
    );
    let layout = AddressSpaceLayout::new(vec![big, odd]).expect("valid layout");
    let rows = layout.print_layout();
    assert_eq!(rows.len(), 2);
    assert_eq!((rows[0].size, rows[0].unit), (1, SizeUnit::GiB));
    assert_eq!(rows[0].end_inclusive, 0x5FFF_FFFF);
    assert_eq!((rows[1].size, rows[1].unit), (1, SizeUnit::MiB));
    assert!(!rows[1].identity);
    assert_eq!(rows[1].cacheability, Cacheability::NonCacheable);
}

#[test]
fn fault_messages() {
    assert_eq!(RegionFault::Empty.message(), "region is empty");
    assert_eq!(RegionFault::MisalignedStart.message(), "region start is not granule-aligned");
    assert_eq!(RegionFault::MisalignedEnd.message(), "region end is not granule-aligned");
    assert_eq!(RegionFault::OutOfRange.message(), "region exceeds the address space");
    assert_eq!(RegionFault::MisalignedTarget.message(), "region target is not granule-aligned");
    assert_eq!(RegionFault::TargetOutOfRange.message(), "region target exceeds the address space");
    assert_eq!(RegionFault::Overlap { with: 3 }.message(), "region overlaps an earlier region");
}
