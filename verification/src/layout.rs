//! Static description of the address space: which ranges exist, how they may
//! be accessed, how they are cached and where they point.
//!
//! A layout is an ordered list of [`MemoryRegion`]s. It is acceptable only if
//! every region is non-empty, granule-aligned, inside the translatable address
//! space and disjoint from every region listed before it.

use vstd::prelude::*;

verus! {

/// Size in bytes of the smallest block a translation entry can describe.
pub const GRANULE: u64 = 0x1_0000;

/// Size in bytes of the large block a single higher-level entry can describe.
pub const BLOCK: u64 = 0x2000_0000;

/// One past the highest address that can be translated.
pub const ADDRESS_SPACE_END: u64 = 0x1_0000_0000_0000;

/// What an access to a region may do.
#[derive(Clone, Copy, Debug, PartialEq, Eq, Structural)]
pub struct Permissions {
    pub read: bool,
    pub write: bool,
    pub execute: bool,
}

/// How accesses to a region are cached.
#[derive(Clone, Copy, Debug, PartialEq, Eq, Structural)]
pub enum Cacheability {
    /// Ordinary write-back cacheable memory.
    Cacheable,
    /// Ordinary memory that bypasses the caches.
    NonCacheable,
    /// Memory-mapped device registers.
    Device,
}

/// Where a region's virtual addresses point.
#[derive(Clone, Copy, Debug, PartialEq, Eq, Structural)]
pub enum Translation {
    /// Every virtual address maps to the same physical address.
    Identity,
    /// The region's first virtual address maps to the given physical address.
    Offset(u64),
}

/// One contiguous range of virtual addresses, `start` inclusive to `end`
/// exclusive, with the attributes every address in it shares.
#[derive(Clone, Copy, Debug, PartialEq, Eq, Structural)]
pub struct MemoryRegion {
    pub start: u64,
    pub end: u64,
    pub permissions: Permissions,
    pub cacheability: Cacheability,
    pub translation: Translation,
}

/// Why a region cannot be part of a layout.
#[derive(Clone, Copy, Debug, PartialEq, Eq, Structural)]
pub enum RegionFault {
    /// `end` is not above `start`.
    Empty,
    /// `start` is not a multiple of the granule.
    MisalignedStart,
    /// `end` is not a multiple of the granule.
    MisalignedEnd,
    /// The region reaches past the translatable address space.
    OutOfRange,
    /// The physical target is not a multiple of the granule.
    MisalignedTarget,
    /// The physical target range reaches past the address space.
    TargetOutOfRange,
    /// The region shares an address with the earlier region at index `with`.
    Overlap { with: usize },
}

/// The first offending region of a rejected layout.
#[derive(Clone, Copy, Debug, PartialEq, Eq, Structural)]
pub struct LayoutError {
    /// Position of the offending region in the list.
    pub index: usize,
    /// The offending region itself.
    pub region: MemoryRegion,
    /// What is wrong with it.
    pub fault: RegionFault,
}

/// Unit in which a size is reported.
#[derive(Clone, Copy, Debug, PartialEq, Eq, Structural)]
pub enum SizeUnit {
    KiB,
    MiB,
    GiB,
}

/// One line of the layout dump.
#[derive(Clone, Copy, Debug, PartialEq, Eq, Structural)]
pub struct LayoutRow {
    pub start: u64,
    /// Last address that belongs to the region.
    pub end_inclusive: u64,
    /// Size of the region, counted in `unit`, rounded down.
    pub size: u64,
    pub unit: SizeUnit,
    pub cacheability: Cacheability,
    pub permissions: Permissions,
    pub identity: bool,
}

/// Whether `addr` is a multiple of the granule.
pub open spec fn granule_aligned(addr: int) -> bool {
    addr % (GRANULE as int) == 0
}

/// Whether `addr` is a multiple of the large block size.
pub open spec fn block_aligned(addr: int) -> bool {
    addr % (BLOCK as int) == 0
}

impl RegionFault {
    /// What the fault is called in a report.
    pub open spec fn text(self) -> Seq<char> {
        match self {
            RegionFault::Empty => "region is empty"@,
            RegionFault::MisalignedStart => "region start is not granule-aligned"@,
            RegionFault::MisalignedEnd => "region end is not granule-aligned"@,
            RegionFault::OutOfRange => "region exceeds the address space"@,
            RegionFault::MisalignedTarget => "region target is not granule-aligned"@,
            RegionFault::TargetOutOfRange => "region target exceeds the address space"@,
            RegionFault::Overlap { with } => "region overlaps an earlier region"@,
        }
    }

    /// What the fault is called in a report.
    pub fn message(&self) -> (message: &'static str)
        ensures
            message@ == self.text(),
    {
        match self {
            RegionFault::Empty => "region is empty",
            RegionFault::MisalignedStart => "region start is not granule-aligned",
            RegionFault::MisalignedEnd => "region end is not granule-aligned",
            RegionFault::OutOfRange => "region exceeds the address space",
            RegionFault::MisalignedTarget => "region target is not granule-aligned",
            RegionFault::TargetOutOfRange => "region target exceeds the address space",
            RegionFault::Overlap { with: _ } => "region overlaps an earlier region",
        }
    }
}

impl Permissions {
    /// Read, write and execute.
    pub fn rwx() -> (p: Permissions)
        ensures
            p == (Permissions { read: true, write: true, execute: true }),
    {
        Permissions { read: true, write: true, execute: true }
    }

    /// Read and write, no execute.
    pub fn rw() -> (p: Permissions)
        ensures
            p == (Permissions { read: true, write: true, execute: false }),
    {
        Permissions { read: true, write: true, execute: false }
    }

    /// Read and execute, no write.
    pub fn rx() -> (p: Permissions)
        ensures
            p == (Permissions { read: true, write: false, execute: true }),
    {
        Permissions { read: true, write: false, execute: true }
    }

    /// Read only.
    pub fn ro() -> (p: Permissions)
        ensures
            p == (Permissions { read: true, write: false, execute: false }),
    {
        Permissions { read: true, write: false, execute: false }
    }
}

impl MemoryRegion {
    /// Number of bytes in the region; zero when `end` is not above `start`.
    pub open spec fn len(self) -> int {
        if self.end > self.start {
            self.end - self.start
        } else {
            0
        }
    }

    /// Physical address that the region's first byte maps to.
    pub open spec fn phys_start(self) -> int {
        match self.translation {
            Translation::Identity => self.start as int,
            Translation::Offset(target) => target as int,
        }
    }

    /// Whether the region maps every address to itself by declaration.
    pub open spec fn is_identity(self) -> bool {
        self.translation is Identity
    }

    /// Whether `addr` lies in the region.
    pub open spec fn contains(self, addr: int) -> bool {
        self.start <= addr < self.end
    }

    /// Whether the two regions share an address.
    pub open spec fn overlaps(self, other: MemoryRegion) -> bool {
        self.start < other.end && other.start < self.end
    }

    /// What is wrong with the region taken by itself, checked in a fixed
    /// order: emptiness, start alignment, end alignment, range, then the
    /// physical target.
    pub open spec fn own_fault(self) -> Option<RegionFault> {
        if self.start >= self.end {
            Some(RegionFault::Empty)
        } else if !granule_aligned(self.start as int) {
            Some(RegionFault::MisalignedStart)
        } else if !granule_aligned(self.end as int) {
            Some(RegionFault::MisalignedEnd)
        } else if self.end > ADDRESS_SPACE_END {
            Some(RegionFault::OutOfRange)
        } else if !granule_aligned(self.phys_start()) {
            Some(RegionFault::MisalignedTarget)
        } else if self.phys_start() + self.len() > ADDRESS_SPACE_END {
            Some(RegionFault::TargetOutOfRange)
        } else {
            None
        }
    }

    /// Whether the region by itself is acceptable.
    pub open spec fn well_formed(self) -> bool {
        self.own_fault() is None
    }

    /// An identity-mapped region.
    pub fn identity(
        start: u64,
        end: u64,
        permissions: Permissions,
        cacheability: Cacheability,
    ) -> (r: MemoryRegion)
        ensures
            r == (MemoryRegion {
                start,
                end,
                permissions,
                cacheability,
                translation: Translation::Identity,
            }),
    {
        MemoryRegion { start, end, permissions, cacheability, translation: Translation::Identity }
    }

    /// A region whose first byte maps to the physical address `target`.
    pub fn remapped(
        start: u64,
        end: u64,
        target: u64,
        permissions: Permissions,
        cacheability: Cacheability,
    ) -> (r: MemoryRegion)
        ensures
            r == (MemoryRegion {
                start,
                end,
                permissions,
                cacheability,
                translation: Translation::Offset(target),
            }),
    {
        MemoryRegion {
            start,
            end,
            permissions,
            cacheability,
            translation: Translation::Offset(target),
        }
    }

    /// Physical address of the region's first byte.
    pub fn target(&self) -> (p: u64)
        ensures
            p == self.phys_start(),
    {
        match self.translation {
            Translation::Identity => self.start,
            Translation::Offset(target) => target,
        }
    }

    /// Tells whether the two regions share an address.
    pub fn intersects(&self, other: &MemoryRegion) -> (b: bool)
        ensures
            b == self.overlaps(*other),
    {
        self.start < other.end && other.start < self.end
    }

    /// Checks the region by itself and names the first thing wrong with it.
    pub fn check(&self) -> (fault: Option<RegionFault>)
        ensures
            fault == self.own_fault(),
    {
        if self.start >= self.end {
            Some(RegionFault::Empty)
        } else if self.start % GRANULE != 0 {
            Some(RegionFault::MisalignedStart)
        } else if self.end % GRANULE != 0 {
            Some(RegionFault::MisalignedEnd)
        } else if self.end > ADDRESS_SPACE_END {
            Some(RegionFault::OutOfRange)
        } else {
            let target = self.target();
            if target % GRANULE != 0 {
                Some(RegionFault::MisalignedTarget)
            } else if target > ADDRESS_SPACE_END - (self.end - self.start) {
                Some(RegionFault::TargetOutOfRange)
            } else {
                None
            }
        }
    }

    /// The dump line of a non-empty region. The size is reported in GiB when
    /// it is at least one GiB, else in MiB when it is at least one MiB, else
    /// in KiB.
    pub open spec fn row(self) -> LayoutRow {
        let len = self.end - self.start;
        let (size, unit) = if len >= 0x4000_0000 {
            (len / 0x4000_0000, SizeUnit::GiB)
        } else if len >= 0x10_0000 {
            (len / 0x10_0000, SizeUnit::MiB)
        } else {
            (len / 0x400, SizeUnit::KiB)
        };
        LayoutRow {
            start: self.start,
            end_inclusive: (self.end - 1) as u64,
            size: size as u64,
            unit,
            cacheability: self.cacheability,
            permissions: self.permissions,
            identity: self.is_identity(),
        }
    }

    /// Computes the dump line of the region.
    fn describe(&self) -> (row: LayoutRow)
        requires
            self.start < self.end,
        ensures
            row == self.row(),
    {
        let len: u64 = self.end - self.start;
        let size: u64;
        let unit: SizeUnit;
        if len >= 0x4000_0000 {
            size = len / 0x4000_0000;
            unit = SizeUnit::GiB;
        } else if len >= 0x10_0000 {
            size = len / 0x10_0000;
            unit = SizeUnit::MiB;
        } else {
            size = len / 0x400;
            unit = SizeUnit::KiB;
        }
        let identity = match self.translation {
            Translation::Identity => true,
            Translation::Offset(_) => false,
        };
        LayoutRow {
            start: self.start,
            end_inclusive: self.end - 1,
            size,
            unit,
            cacheability: self.cacheability,
            permissions: self.permissions,
            identity,
        }
    }
}

/// Whether the region at index `i` is acceptable: well-formed by itself and
/// disjoint from every region before it.
pub open spec fn valid_at(regions: Seq<MemoryRegion>, i: int) -> bool {
    &&& regions[i].well_formed()
    &&& forall|j: int| 0 <= j < i ==> !(#[trigger] regions[j]).overlaps(regions[i])
}

/// Whether the whole list is an acceptable layout.
pub open spec fn valid_layout(regions: Seq<MemoryRegion>) -> bool {
    forall|i: int| 0 <= i < regions.len() ==> valid_at(regions, i)
}

/// Whether `e` names the first offending region of the list and the first
/// thing wrong with it. A region's own faults come before an overlap, and an
/// overlap is reported against the earliest region it collides with.
pub open spec fn first_fault(regions: Seq<MemoryRegion>, e: LayoutError) -> bool {
    &&& 0 <= e.index < regions.len()
    &&& e.region == regions[e.index as int]
    &&& forall|k: int| 0 <= k < e.index ==> valid_at(regions, k)
    &&& match e.fault {
        RegionFault::Overlap { with } => {
            &&& e.region.well_formed()
            &&& with < e.index
            &&& regions[with as int].overlaps(e.region)
            &&& forall|j: int| 0 <= j < with ==> !(#[trigger] regions[j]).overlaps(e.region)
        },
        fault => e.region.own_fault() == Some(fault),
    }
}

/// Validates a list of regions. Succeeds exactly on acceptable layouts, and
/// otherwise reports the first offending region.
pub fn check_regions(regions: &Vec<MemoryRegion>) -> (result: Result<(), LayoutError>)
    ensures
        result is Ok <==> valid_layout(regions@),
        result matches Err(e) ==> first_fault(regions@, e),
{
    let n: usize = regions.len();
    let mut i: usize = 0;
    while i < n
        invariant
            n == regions.len(),
            i <= n,
            forall|k: int| 0 <= k < i ==> valid_at(regions@, k),
        decreases n - i,
    {
        let region = regions[i];
        match region.check() {
            Some(fault) => {
                assert(!valid_at(regions@, i as int));
                return Err(LayoutError { index: i, region, fault });
            },
            None => {},
        }
        let mut j: usize = 0;
        while j < i
            invariant
                i < n,
                n == regions.len(),
                j <= i,
                region == regions@[i as int],
                region.well_formed(),
                forall|k: int| 0 <= k < i ==> valid_at(regions@, k),
                forall|k: int| 0 <= k < j ==> !(#[trigger] regions@[k]).overlaps(region),
            decreases i - j,
        {
            if regions[j].intersects(&region) {
                assert(!valid_at(regions@, i as int));
                return Err(
                    LayoutError { index: i, region, fault: RegionFault::Overlap { with: j } },
                );
            }
            j += 1;
        }
        i += 1;
    }
    Ok(())
}

/// A validated address-space layout: an ordered list of regions that is known
/// to be acceptable.
pub struct AddressSpaceLayout {
    regions: Vec<MemoryRegion>,
}

impl View for AddressSpaceLayout {
    type V = Seq<MemoryRegion>;

    closed spec fn view(&self) -> Seq<MemoryRegion> {
        self.regions@
    }
}

impl AddressSpaceLayout {
    #[verifier::type_invariant]
    spec fn inv(self) -> bool {
        valid_layout(self.regions@)
    }

    /// Takes a list of regions as the layout if it is acceptable, and
    /// otherwise reports the first offending region.
    pub fn new(regions: Vec<MemoryRegion>) -> (result: Result<AddressSpaceLayout, LayoutError>)
        ensures
            result is Ok <==> valid_layout(regions@),
            result matches Ok(layout) ==> layout@ == regions@,
            result matches Err(e) ==> first_fault(regions@, e),
    {
        match check_regions(&regions) {
            Ok(()) => Ok(AddressSpaceLayout { regions }),
            Err(e) => Err(e),
        }
    }

    /// The regions, in the order they were given.
    pub fn regions(&self) -> (regions: &Vec<MemoryRegion>)
        ensures
            regions@ == self@,
            valid_layout(regions@),
    {
        proof {
            use_type_invariant(self);
        }
        &self.regions
    }

    /// The layout dump: one line per region, in the order of the layout.
    /// Reads the layout and changes nothing.
    pub fn print_layout(&self) -> (rows: Vec<LayoutRow>)
        ensures
            rows@.len() == self@.len(),
            forall|i: int| 0 <= i < self@.len() ==> rows@[i] == (#[trigger] self@[i]).row(),
    {
        proof {
            use_type_invariant(self);
        }
        let n: usize = self.regions.len();
        let mut rows: Vec<LayoutRow> = Vec::new();
        let mut i: usize = 0;
        while i < n
            invariant
                n == self.regions.len(),
                i <= n,
                valid_layout(self.regions@),
                rows@.len() == i,
                forall|k: int| 0 <= k < i ==> rows@[k] == (#[trigger] self.regions@[k]).row(),
            decreases n - i,
        {
            assert(valid_at(self.regions@, i as int));
            let row = self.regions[i].describe();
            rows.push(row);
            i += 1;
        }
        rows
    }
}

/// A valid layout holds no region with a misaligned bound.
pub proof fn lemma_valid_layout_is_aligned(regions: Seq<MemoryRegion>, i: int)
    requires
        valid_layout(regions),
        0 <= i < regions.len(),
    ensures
        granule_aligned(regions[i].start as int),
        granule_aligned(regions[i].end as int),
        regions[i].start < regions[i].end <= ADDRESS_SPACE_END,
{
    assert(valid_at(regions, i));
}

/// In a valid layout any two different regions are disjoint, whatever their
/// order.
pub proof fn lemma_valid_layout_is_disjoint(regions: Seq<MemoryRegion>, i: int, j: int)
    requires
        valid_layout(regions),
        0 <= i < regions.len(),
        0 <= j < regions.len(),
        i != j,
    ensures
        !regions[i].overlaps(regions[j]),
{
    if i < j {
        assert(valid_at(regions, j));
    } else {
        assert(valid_at(regions, i));
    }
}

} // verus!
