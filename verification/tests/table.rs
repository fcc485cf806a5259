use bringup::descriptor::{decode, EntryKind};
use bringup::layout::{
    AddressSpaceLayout, Cacheability, LayoutError, MemoryRegion, Permissions, RegionFault,
    Translation,
};
use bringup::mmu::{Mmu, MmuState};
use bringup::table::{build, TableEntry, Translated};

fn ram() -> MemoryRegion {
    MemoryRegion::identity(0x0000_0000, 0x0020_0000, Permissions::rwx(), Cacheability::Cacheable)
}

fn mmio() -> MemoryRegion {
    MemoryRegion::identity(0x3F00_0000, 0x3F01_0000, Permissions::rw(), Cacheability::Device)
}

#[test]
fn board_scenario_builds_two_ranges_and_activates() {
    let regions = vec![ram(), mmio()];
    let table = build(&regions).expect("an aligned, disjoint layout builds");
    assert_eq!(table.mapped_ranges(), regions);
    assert_eq!(table.mapped_ranges().len(), 2);

    let mut mmu = Mmu::new();
    assert_eq!(mmu.state(), MmuState::Inactive);
    assert_eq!(mmu.init(table, &Vec::new(), true), Ok(()));
    assert_eq!(mmu.state(), MmuState::Active);

    let layout = AddressSpaceLayout::new(regions.clone()).expect("valid layout");
    let rows = layout.print_layout();
    assert_eq!(rows.len(), 2);
    assert_eq!((rows[0].start, rows[0].end_inclusive), (0x0000_0000, 0x001F_FFFF));
    assert_eq!(rows[0].permissions, Permissions::rwx());
    assert!(rows[0].identity);
    assert_eq!((rows[1].start, rows[1].end_inclusive), (0x3F00_0000, 0x3F00_FFFF));
    assert_eq!(rows[1].permissions, Permissions::rw());
    assert_eq!(rows[1].cacheability, Cacheability::Device);
    assert!(rows[1].identity);
}

#[test]
fn board_scenario_entries() {
    let table = build(&vec![ram(), mmio()]).expect("builds");
    assert_eq!(table.entry_count(), 33);
    assert_eq!(table.entry(0), Some(TableEntry { virt: 0, descriptor: 0x1F3 }));
    assert_eq!(table.entry(1), Some(TableEntry { virt: 0x1_0000, descriptor: 0x1_0173 }));
    assert_eq!(table.entry(31), Some(TableEntry { virt: 0x1F_0000, descriptor: 0x1F_0173 }));
    assert_eq!(table.entry(32), Some(TableEntry { virt: 0x3F00_0000, descriptor: 0x3F00_01BB }));
    assert_eq!(table.entry(33), None);
}

#[test]
fn every_entry_carries_its_regions_attributes() {
    let table = build(&vec![ram(), mmio()]).expect("builds");
    for index in 0..table.entry_count() {
        let entry = table.entry(index).expect("inside the table");
        let mapping = decode(entry.descriptor).expect("a valid descriptor");
        assert_eq!(mapping.output, entry.virt);
        assert!(mapping.identity);
        assert_eq!(mapping.kind, EntryKind::Page);
        if index < 32 {
            assert_eq!(mapping.permissions, Permissions::rwx());
            assert_eq!(mapping.cacheability, Cacheability::Cacheable);
            assert_eq!(mapping.range_start, index == 0);
        } else {
            assert_eq!(mapping.permissions, Permissions::rw());
            assert_eq!(mapping.cacheability, Cacheability::Device);
            assert!(mapping.range_start);
        }
    }
}

#[test]
fn empty_layout_builds_empty_table() {
    let table = build(&Vec::new()).expect("nothing to reject");
    assert_eq!(table.entry_count(), 0);
    assert_eq!(table.mapped_ranges(), Vec::new());
    assert_eq!(table.translate(0), None);
}

#[test]
fn aligned_region_uses_large_blocks() {
    let region =
        MemoryRegion::identity(0x2000_0000, 0x6000_0000, Permissions::rw(), Cacheability::Cacheable);
    let table = build(&vec![region]).expect("builds");
    assert_eq!(table.entry_count(), 2);
    let first = decode(table.entry(0).unwrap().descriptor).unwrap();
    let second = decode(table.entry(1).unwrap().descriptor).unwrap();
    assert_eq!(first.kind, EntryKind::Block);
    assert_eq!(second.kind, EntryKind::Block);
    assert_eq!(table.entry(0).unwrap().virt, 0x2000_0000);
    assert_eq!(table.entry(1).unwrap().virt, 0x4000_0000);
    assert!(first.range_start);
    assert!(!second.range_start);
    assert_eq!(table.mapped_ranges(), vec![region]);
}

#[test]
fn pages_surround_a_large_block() {
    let region =
        MemoryRegion::identity(0x1FFF_0000, 0x4001_0000, Permissions::rw(), Cacheability::Cacheable);
    let table = build(&vec![region]).expect("builds");
    assert_eq!(table.entry_count(), 3);
    let kinds: Vec<EntryKind> = (0..3)
        .map(|i| decode(table.entry(i).unwrap().descriptor).unwrap().kind)
        .collect();
    assert_eq!(kinds, vec![EntryKind::Page, EntryKind::Block, EntryKind::Page]);
    let starts: Vec<u64> = (0..3).map(|i| table.entry(i).unwrap().virt).collect();
    assert_eq!(starts, vec![0x1FFF_0000, 0x2000_0000, 0x4000_0000]);
    assert_eq!(table.mapped_ranges(), vec![region]);
}

#[test]
fn block_needs_room_for_the_whole_block() {
    let region =
        MemoryRegion::identity(0x2000_0000, 0x3FFF_0000, Permissions::rw(), Cacheability::Cacheable);
    let table = build(&vec![region]).expect("builds");
    assert_eq!(table.entry_count(), 8191);
    assert_eq!(table.mapped_ranges(), vec![region]);
}

#[test]
fn block_needs_aligned_target() {
    let region = MemoryRegion::remapped(
        0x2000_0000,
        0x4000_0000,
        0x1_0000,
        Permissions::rw(),
        Cacheability::Cacheable,
    );
    let table = build(&vec![region]).expect("builds");
    assert_eq!(table.entry_count(), 8192);
    let aligned = MemoryRegion::remapped(
        0x2000_0000,
        0x4000_0000,
        0x6000_0000,
        Permissions::rw(),
        Cacheability::Cacheable,
    );
    let table = build(&vec![aligned]).expect("builds");
    assert_eq!(table.entry_count(), 1);
    assert_eq!(table.translate(0x2000_0004).map(|t| t.phys), Some(0x6000_0004));
    assert_eq!(table.mapped_ranges(), vec![aligned]);
}

#[test]
fn misaligned_bounds_fail_and_are_not_rounded() {
    let bad_end = MemoryRegion::identity(0x0, 0x0020_0800, Permissions::rwx(), Cacheability::Cacheable);
    match build(&vec![bad_end]) {
        Ok(_) => panic!("a misaligned end was rounded"),
        Err(e) => assert_eq!(
            e,
            LayoutError { index: 0, region: bad_end, fault: RegionFault::MisalignedEnd }
        ),
    }
    let bad_start =
        MemoryRegion::identity(0x0000_0800, 0x0020_0000, Permissions::rwx(), Cacheability::Cacheable);
    match build(&vec![ram().clone(), mmio(), bad_start]) {
        Ok(_) => panic!("a misaligned start was rounded"),
        Err(e) => assert_eq!(e.fault, RegionFault::MisalignedStart),
    }
}

#[test]
fn one_bad_region_fails_the_whole_build() {
    let bad = MemoryRegion::identity(0x4000_0000, 0x4000_0001, Permissions::rw(), Cacheability::Device);
    match build(&vec![ram(), bad, mmio()]) {
        Ok(_) => panic!("a partial table was produced"),
        Err(e) => {
            assert_eq!(e.index, 1);
            assert_eq!(e.region, bad);
            assert_eq!(e.fault, RegionFault::MisalignedEnd);
        }
    }
}

#[test]
fn overlapping_regions_fail() {
    let a = MemoryRegion::identity(0x0, 0x2_0000, Permissions::rw(), Cacheability::Cacheable);
    let b = MemoryRegion::identity(0x1_0000, 0x3_0000, Permissions::rw(), Cacheability::Cacheable);
    match build(&vec![a, b]) {
        Ok(_) => panic!("overlapping regions were mapped"),
        Err(e) => assert_eq!(
            e,
            LayoutError { index: 1, region: b, fault: RegionFault::Overlap { with: 0 } }
        ),
    }
}

#[test]
fn adjacent_regions_with_equal_attributes_stay_apart() {
    let a = MemoryRegion::identity(0x0, 0x1_0000, Permissions::rw(), Cacheability::Cacheable);
    let b = MemoryRegion::identity(0x1_0000, 0x3_0000, Permissions::rw(), Cacheability::Cacheable);
    let table = build(&vec![a, b]).expect("builds");
    assert_eq!(table.entry_count(), 3);
    assert_eq!(table.mapped_ranges(), vec![a, b]);
}

#[test]
fn round_trip_keeps_order_and_translation_kind() {
    let high = MemoryRegion::remapped(
        0x8000_0000,
        0x8002_0000,
        0x8000_0000,
        Permissions::ro(),
        Cacheability::NonCacheable,
    );
    let uart = MemoryRegion::remapped(
        0x1FFF_0000,
        0x2000_0000,
        0x3F20_0000,
        Permissions::rw(),
        Cacheability::Device,
    );
    let code = MemoryRegion::identity(0x8_0000, 0x9_0000, Permissions::rx(), Cacheability::Cacheable);
    let regions = vec![high, uart, code];
    let table = build(&regions).expect("builds");
    let ranges = table.mapped_ranges();
    assert_eq!(ranges, regions);
    assert_eq!(ranges[0].translation, Translation::Offset(0x8000_0000));
    assert_eq!(ranges[2].translation, Translation::Identity);
}

#[test]
fn translate_follows_the_layout() {
    let uart = MemoryRegion::remapped(
        0x1FFF_0000,
        0x2000_0000,
        0x3F20_0000,
        Permissions::rw(),
        Cacheability::Device,
    );
    let table = build(&vec![ram(), mmio(), uart]).expect("builds");
    assert_eq!(
        table.translate(0x0008_1234),
        Some(Translated {
            phys: 0x0008_1234,
            permissions: Permissions::rwx(),
            cacheability: Cacheability::Cacheable,
        })
    );
    assert_eq!(
        table.translate(0x3F00_FFFF),
        Some(Translated {
            phys: 0x3F00_FFFF,
            permissions: Permissions::rw(),
            cacheability: Cacheability::Device,
        })
    );
    assert_eq!(
        table.translate(0x1FFF_1000),
        Some(Translated {
            phys: 0x3F20_1000,
            permissions: Permissions::rw(),
            cacheability: Cacheability::Device,
        })
    );
}

#[test]
fn translate_maps_nothing_outside_the_layout() {
    let table = build(&vec![ram(), mmio()]).expect("builds");
    assert_eq!(table.translate(0x0020_0000), None);
    assert_eq!(table.translate(0x3EFF_FFFF), None);
    assert_eq!(table.translate(0x3F01_0000), None);
    assert_eq!(table.translate(u64::MAX), None);
}

#[test]
fn covers_whole_ranges_only() {
    let a = MemoryRegion::identity(0x0, 0x2_0000, Permissions::rw(), Cacheability::Cacheable);
    let b = MemoryRegion::identity(0x2_0000, 0x3_0000, Permissions::ro(), Cacheability::Cacheable);
    let c = MemoryRegion::identity(0x5_0000, 0x6_0000, Permissions::ro(), Cacheability::Cacheable);
    let table = build(&vec![a, c, b]).expect("builds");
    assert!(table.covers(0x0, 0x3_0000));
    assert!(table.covers(0x1_8000, 0x2_8000));
    assert!(table.covers(0x5_0000, 0x6_0000));
    assert!(!table.covers(0x0, 0x3_0001));
    assert!(!table.covers(0x2_0000, 0x6_0000));
    assert!(!table.covers(0x4_FFFF, 0x5_0001));
    assert!(table.covers(0x4_0000, 0x4_0000));
    assert!(table.covers(0x9_0000, 0x1_0000));
}
