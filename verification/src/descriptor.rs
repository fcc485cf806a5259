//! The 64-bit descriptor that a translation entry stores.
//!
//! Bit 0 marks the descriptor valid, bit 1 tells a page from a block, bits 2
//! and 3 select the memory type, bits 4 to 6 grant read, write and execute,
//! bit 7 marks the first entry of a mapped range, bit 8 marks an
//! identity-declared range and bits 16 to 47 hold the output address. All
//! other bits are zero.

use vstd::prelude::*;
use crate::layout::{Cacheability, Permissions, ADDRESS_SPACE_END, GRANULE};

verus! {

pub const VALID_BIT: u64 = 0x1;

pub const PAGE_BIT: u64 = 0x2;

pub const MEMORY_TYPE_MASK: u64 = 0xC;

pub const MEMORY_TYPE_CACHEABLE: u64 = 0x0;

pub const MEMORY_TYPE_NON_CACHEABLE: u64 = 0x4;

pub const MEMORY_TYPE_DEVICE: u64 = 0x8;

pub const READ_BIT: u64 = 0x10;

pub const WRITE_BIT: u64 = 0x20;

pub const EXECUTE_BIT: u64 = 0x40;

pub const RANGE_START_BIT: u64 = 0x80;

pub const IDENTITY_BIT: u64 = 0x100;

pub const ADDRESS_MASK: u64 = 0x0000_FFFF_FFFF_0000;

/// Every bit that a descriptor may set.
pub const DEFINED_BITS: u64 = 0x0000_FFFF_FFFF_01FF;

/// How much address space one entry covers.
#[derive(Clone, Copy, Debug, PartialEq, Eq, Structural)]
pub enum EntryKind {
    /// One granule.
    Page,
    /// One large block.
    Block,
}

/// What a descriptor says, field by field.
#[derive(Clone, Copy, Debug, PartialEq, Eq, Structural)]
pub struct Mapping {
    pub kind: EntryKind,
    /// Physical address that the entry's first byte maps to.
    pub output: u64,
    pub permissions: Permissions,
    pub cacheability: Cacheability,
    /// Whether the entry is the first of its mapped range.
    pub range_start: bool,
    /// Whether the range was declared identity-mapped.
    pub identity: bool,
}

/// `bit` if `set`, else zero.
pub open spec fn flag(set: bool, bit: u64) -> u64 {
    if set {
        bit
    } else {
        0
    }
}

/// The memory-type field for a cacheability.
pub open spec fn memory_type(cacheability: Cacheability) -> u64 {
    match cacheability {
        Cacheability::Cacheable => MEMORY_TYPE_CACHEABLE,
        Cacheability::NonCacheable => MEMORY_TYPE_NON_CACHEABLE,
        Cacheability::Device => MEMORY_TYPE_DEVICE,
    }
}

impl EntryKind {
    /// Number of bytes an entry of this kind covers.
    pub open spec fn size(self) -> int {
        match self {
            EntryKind::Page => crate::layout::GRANULE as int,
            EntryKind::Block => crate::layout::BLOCK as int,
        }
    }

    /// Number of bytes an entry of this kind covers.
    pub fn bytes(&self) -> (n: u64)
        ensures
            n == self.size(),
    {
        match self {
            EntryKind::Page => crate::layout::GRANULE,
            EntryKind::Block => crate::layout::BLOCK,
        }
    }
}

impl Mapping {
    /// Whether the output address fits the descriptor's address field.
    pub open spec fn well_formed(self) -> bool {
        self.output % GRANULE == 0 && self.output < ADDRESS_SPACE_END
    }

    /// The descriptor for this mapping.
    pub open spec fn bits(self) -> u64 {
        VALID_BIT | flag(self.kind is Page, PAGE_BIT) | memory_type(self.cacheability) | flag(
            self.permissions.read,
            READ_BIT,
        ) | flag(self.permissions.write, WRITE_BIT) | flag(self.permissions.execute, EXECUTE_BIT)
            | flag(self.range_start, RANGE_START_BIT) | flag(self.identity, IDENTITY_BIT) | (
        self.output & ADDRESS_MASK)
    }

    /// Packs the mapping into a descriptor. Bits of the output address that
    /// the address field cannot hold are dropped.
    pub fn encode(&self) -> (bits: u64)
        ensures
            bits == self.bits(),
    {
        let kind: u64 = match self.kind {
            EntryKind::Page => PAGE_BIT,
            EntryKind::Block => 0,
        };
        let memory: u64 = match self.cacheability {
            Cacheability::Cacheable => MEMORY_TYPE_CACHEABLE,
            Cacheability::NonCacheable => MEMORY_TYPE_NON_CACHEABLE,
            Cacheability::Device => MEMORY_TYPE_DEVICE,
        };
        let read: u64 = if self.permissions.read {
            READ_BIT
        } else {
            0
        };
        let write: u64 = if self.permissions.write {
            WRITE_BIT
        } else {
            0
        };
        let execute: u64 = if self.permissions.execute {
            EXECUTE_BIT
        } else {
            0
        };
        let first: u64 = if self.range_start {
            RANGE_START_BIT
        } else {
            0
        };
        let identity: u64 = if self.identity {
            IDENTITY_BIT
        } else {
            0
        };
        VALID_BIT | kind | memory | read | write | execute | first | identity | (self.output
            & ADDRESS_MASK)
    }
}

/// What a descriptor says, or `None` if it is not a valid descriptor: the
/// valid bit is clear, an undefined bit is set, or the memory type is the
/// unassigned fourth value.
pub open spec fn decode_bits(bits: u64) -> Option<Mapping> {
    if bits & VALID_BIT == 0 || bits & !DEFINED_BITS != 0 || bits & MEMORY_TYPE_MASK
        == MEMORY_TYPE_MASK {
        None
    } else {
        Some(
            Mapping {
                kind: if bits & PAGE_BIT != 0 {
                    EntryKind::Page
                } else {
                    EntryKind::Block
                },
                output: bits & ADDRESS_MASK,
                permissions: Permissions {
                    read: bits & READ_BIT != 0,
                    write: bits & WRITE_BIT != 0,
                    execute: bits & EXECUTE_BIT != 0,
                },
                cacheability: if bits & MEMORY_TYPE_MASK == MEMORY_TYPE_DEVICE {
                    Cacheability::Device
                } else if bits & MEMORY_TYPE_MASK == MEMORY_TYPE_NON_CACHEABLE {
                    Cacheability::NonCacheable
                } else {
                    Cacheability::Cacheable
                },
                range_start: bits & RANGE_START_BIT != 0,
                identity: bits & IDENTITY_BIT != 0,
            },
        )
    }
}

/// Unpacks a descriptor, or returns `None` if it is not a valid one.
pub fn decode(bits: u64) -> (mapping: Option<Mapping>)
    ensures
        mapping == decode_bits(bits),
{
    if bits & VALID_BIT == 0 || bits & !DEFINED_BITS != 0 || bits & MEMORY_TYPE_MASK
        == MEMORY_TYPE_MASK {
        return None;
    }
    let kind = if bits & PAGE_BIT != 0 {
        EntryKind::Page
    } else {
        EntryKind::Block
    };
    let cacheability = if bits & MEMORY_TYPE_MASK == MEMORY_TYPE_DEVICE {
        Cacheability::Device
    } else if bits & MEMORY_TYPE_MASK == MEMORY_TYPE_NON_CACHEABLE {
        Cacheability::NonCacheable
    } else {
        Cacheability::Cacheable
    };
    Some(
        Mapping {
            kind,
            output: bits & ADDRESS_MASK,
            permissions: Permissions {
                read: bits & READ_BIT != 0,
                write: bits & WRITE_BIT != 0,
                execute: bits & EXECUTE_BIT != 0,
            },
            cacheability,
            range_start: bits & RANGE_START_BIT != 0,
            identity: bits & IDENTITY_BIT != 0,
        },
    )
}

/// Decoding the descriptor of a well-formed mapping gives the mapping back.
pub proof fn lemma_decode_encode(m: Mapping)
    requires
        m.well_formed(),
    ensures
        decode_bits(m.bits()) == Some(m),
{
    let k = flag(m.kind is Page, PAGE_BIT);
    let t = memory_type(m.cacheability);
    let r = flag(m.permissions.read, READ_BIT);
    let w = flag(m.permissions.write, WRITE_BIT);
    let x = flag(m.permissions.execute, EXECUTE_BIT);
    let s = flag(m.range_start, RANGE_START_BIT);
    let i = flag(m.identity, IDENTITY_BIT);
    let o = m.output;
    let bits = m.bits();
    assert(bits == 0x1u64 | k | t | r | w | x | s | i | (o & 0x0000_FFFF_FFFF_0000u64));
    assert({
        &&& bits & 0x1 == 1
        &&& bits & !0x0000_FFFF_FFFF_01FFu64 == 0
        &&& bits & 0x2 == k
        &&& bits & 0xC == t
        &&& bits & 0x10 == r
        &&& bits & 0x20 == w
        &&& bits & 0x40 == x
        &&& bits & 0x80 == s
        &&& bits & 0x100 == i
        &&& bits & 0x0000_FFFF_FFFF_0000u64 == o
    }) by (bit_vector)
        requires
            bits == 0x1u64 | k | t | r | w | x | s | i | (o & 0x0000_FFFF_FFFF_0000u64),
            k == 0 || k == 0x2,
            t == 0 || t == 0x4 || t == 0x8,
            r == 0 || r == 0x10,
            w == 0 || w == 0x20,
            x == 0 || x == 0x40,
            s == 0 || s == 0x80,
            i == 0 || i == 0x100,
            o % 0x1_0000 == 0,
            o < 0x1_0000_0000_0000u64,
    ;
}

/// Encoding what a valid descriptor says gives the descriptor back, and what
/// it says is well-formed.
pub proof fn lemma_encode_decode(bits: u64)
    requires
        decode_bits(bits) is Some,
    ensures
        decode_bits(bits)->0.well_formed(),
        decode_bits(bits)->0.bits() == bits,
{
    let m = decode_bits(bits)->0;
    let k = flag(m.kind is Page, PAGE_BIT);
    let t = memory_type(m.cacheability);
    let r = flag(m.permissions.read, READ_BIT);
    let w = flag(m.permissions.write, WRITE_BIT);
    let x = flag(m.permissions.execute, EXECUTE_BIT);
    let s = flag(m.range_start, RANGE_START_BIT);
    let i = flag(m.identity, IDENTITY_BIT);
    let o = m.output;
    assert(k == bits & 0x2) by (bit_vector)
        requires
            k == (if bits & 0x2 != 0 {
                0x2u64
            } else {
                0u64
            }),
    ;
    assert(r == bits & 0x10) by (bit_vector)
        requires
            r == (if bits & 0x10 != 0 {
                0x10u64
            } else {
                0u64
            }),
    ;
    assert(w == bits & 0x20) by (bit_vector)
        requires
            w == (if bits & 0x20 != 0 {
                0x20u64
            } else {
                0u64
            }),
    ;
    assert(x == bits & 0x40) by (bit_vector)
        requires
            x == (if bits & 0x40 != 0 {
                0x40u64
            } else {
                0u64
            }),
    ;
    assert(s == bits & 0x80) by (bit_vector)
        requires
            s == (if bits & 0x80 != 0 {
                0x80u64
            } else {
                0u64
            }),
    ;
    assert(i == bits & 0x100) by (bit_vector)
        requires
            i == (if bits & 0x100 != 0 {
                0x100u64
            } else {
                0u64
            }),
    ;
    assert(t == bits & 0xC) by (bit_vector)
        requires
            bits & 0xC != 0xC,
            t == (if bits & 0xC == 0x8 {
                0x8u64
            } else if bits & 0xC == 0x4 {
                0x4u64
            } else {
                0u64
            }),
    ;
    assert(o % 0x1_0000 == 0 && o < 0x1_0000_0000_0000u64) by (bit_vector)
        requires
            o == bits & 0x0000_FFFF_FFFF_0000u64,
    ;
    assert(bits == 0x1u64 | (bits & 0x2) | (bits & 0xC) | (bits & 0x10) | (bits & 0x20) | (bits
        & 0x40) | (bits & 0x80) | (bits & 0x100) | ((bits & 0x0000_FFFF_FFFF_0000u64)
        & 0x0000_FFFF_FFFF_0000u64)) by (bit_vector)
        requires
            bits & 0x1 != 0,
            bits & !0x0000_FFFF_FFFF_01FFu64 == 0,
    ;
}

} // verus!
