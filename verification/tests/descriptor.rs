use bringup::descriptor::{
    decode, EntryKind, Mapping, ADDRESS_MASK, DEFINED_BITS, EXECUTE_BIT, IDENTITY_BIT,
    MEMORY_TYPE_DEVICE, MEMORY_TYPE_MASK, MEMORY_TYPE_NON_CACHEABLE, PAGE_BIT, RANGE_START_BIT,
    READ_BIT, VALID_BIT, WRITE_BIT,
};
use bringup::layout::{Cacheability, Permissions};

fn sample() -> Mapping {
    Mapping {
        kind: EntryKind::Page,
        output: 0x3F00_0000,
        permissions: Permissions::rw(),
        cacheability: Cacheability::Device,
        range_start: true,
        identity: true,
    }
}

#[test]
fn entry_kind_sizes() {
    assert_eq!(EntryKind::Page.bytes(), 0x1_0000);
    assert_eq!(EntryKind::Block.bytes(), 0x2000_0000);
}

#[test]
fn encode_device_page() {
    assert_eq!(sample().encode(), 0x3F00_01BB);
}

#[test]
fn encode_sets_each_field() {
    let plain = Mapping {
        kind: EntryKind::Block,
        output: 0,
        permissions: Permissions { read: false, write: false, execute: false },
        cacheability: Cacheability::Cacheable,
        range_start: false,
        identity: false,
    };
    assert_eq!(plain.encode(), VALID_BIT);
    assert_eq!(Mapping { kind: EntryKind::Page, ..plain }.encode(), VALID_BIT | PAGE_BIT);
    assert_eq!(
        Mapping { cacheability: Cacheability::NonCacheable, ..plain }.encode(),
        VALID_BIT | MEMORY_TYPE_NON_CACHEABLE
    );
    assert_eq!(
        Mapping { cacheability: Cacheability::Device, ..plain }.encode(),
        VALID_BIT | MEMORY_TYPE_DEVICE
    );
    assert_eq!(
        Mapping { permissions: Permissions { read: true, write: false, execute: false }, ..plain }
            .encode(),
        VALID_BIT | READ_BIT
    );
    assert_eq!(
        Mapping { permissions: Permissions { read: false, write: true, execute: false }, ..plain }
            .encode(),
        VALID_BIT | WRITE_BIT
    );
    assert_eq!(
        Mapping { permissions: Permissions { read: false, write: false, execute: true }, ..plain }
            .encode(),
        VALID_BIT | EXECUTE_BIT
    );
    assert_eq!(Mapping { range_start: true, ..plain }.encode(), VALID_BIT | RANGE_START_BIT);
    assert_eq!(Mapping { identity: true, ..plain }.encode(), VALID_BIT | IDENTITY_BIT);
    assert_eq!(
        Mapping { output: 0xFFFF_FFFF_0000, ..plain }.encode(),
        VALID_BIT | ADDRESS_MASK
    );
}

#[test]
fn decode_gives_back_what_was_encoded() {
    let kinds = [EntryKind::Page, EntryKind::Block];
    let caches = [Cacheability::Cacheable, Cacheability::NonCacheable, Cacheability::Device];
    let outputs = [0u64, 0x1_0000, 0x3F00_0000, 0xFFFF_FFFF_0000];
    for kind in kinds {
        for cacheability in caches {
            for output in outputs {
                for flags in 0u8..32 {
                    let mapping = Mapping {
                        kind,
                        output,
                        permissions: Permissions {
                            read: flags & 1 != 0,
                            write: flags & 2 != 0,
                            execute: flags & 4 != 0,
                        },
                        cacheability,
                        range_start: flags & 8 != 0,
                        identity: flags & 16 != 0,
                    };
                    assert_eq!(decode(mapping.encode()), Some(mapping));
                }
            }
        }
    }
}

#[test]
fn encode_gives_back_what_was_decoded() {
    for bits in [0x1u64, 0x3F00_01BB, 0x1F3, 0x2000_0071, DEFINED_BITS & !MEMORY_TYPE_DEVICE] {
        let mapping = decode(bits).expect("a valid descriptor");
        assert_eq!(mapping.encode(), bits);
    }
}

#[test]
fn decode_rejects_cleared_valid_bit() {
    assert_eq!(decode(0), None);
    assert_eq!(decode(0x3F00_01BA), None);
}

#[test]
fn decode_rejects_undefined_bits() {
    assert_eq!(decode(VALID_BIT | 0x200), None);
    assert_eq!(decode(VALID_BIT | 0x8000), None);
    assert_eq!(decode(VALID_BIT | (1 << 48)), None);
    assert_eq!(decode(VALID_BIT | (1 << 63)), None);
}

#[test]
fn decode_rejects_unassigned_memory_type() {
    assert_eq!(decode(VALID_BIT | MEMORY_TYPE_MASK), None);
}

#[test]
fn encode_drops_address_bits_that_do_not_fit() {
    let mapping = Mapping { output: 0x3F00_1234, ..sample() };
    assert_eq!(mapping.encode(), 0x3F00_01BB);
}
