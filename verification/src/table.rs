//! Translation tables: building one from a layout and reading one back.
//!
//! A table is an ordered list of entries. Each entry maps one page or one
//! large block, and carries the attributes of the region it was made for. A
//! region is cut into entries from its start upwards, taking a large block
//! wherever one fits and a page everywhere else.

use vstd::prelude::*;
use crate::descriptor::{
    decode,
    decode_bits,
    lemma_decode_encode,
    lemma_encode_decode,
    EntryKind,
    Mapping,
};
use crate::layout::{
    block_aligned,
    check_regions,
    first_fault,
    granule_aligned,
    valid_at,
    valid_layout,
    Cacheability,
    LayoutError,
    MemoryRegion,
    Permissions,
    Translation,
    ADDRESS_SPACE_END,
    BLOCK,
    GRANULE,
};

verus! {

/// One entry of a translation table: the virtual address it starts at and
/// the descriptor stored for it.
#[derive(Clone, Copy, Debug, PartialEq, Eq, Structural)]
pub struct TableEntry {
    pub virt: u64,
    pub descriptor: u64,
}

/// Physical address that `at` maps to in region `r`.
pub open spec fn output_at(r: MemoryRegion, at: int) -> int {
    r.phys_start() + (at - r.start)
}

/// Whether a large block can be used at `at` in region `r`: the virtual and
/// the physical address are both block-aligned and the whole block lies in
/// the region.
pub open spec fn block_fits(r: MemoryRegion, at: int) -> bool {
    &&& block_aligned(at)
    &&& block_aligned(output_at(r, at))
    &&& at + BLOCK <= r.end
}

/// The coarsest entry that can be used at `at` in region `r`.
pub open spec fn kind_at(r: MemoryRegion, at: int) -> EntryKind {
    if block_fits(r, at) {
        EntryKind::Block
    } else {
        EntryKind::Page
    }
}

/// Number of bytes that the entry at `at` in region `r` covers.
pub open spec fn step_at(r: MemoryRegion, at: int) -> int {
    if block_fits(r, at) {
        0x2000_0000
    } else {
        0x1_0000
    }
}

/// What the entry at `at` in region `r` says.
pub open spec fn mapping_at(r: MemoryRegion, at: int) -> Mapping {
    Mapping {
        kind: kind_at(r, at),
        output: output_at(r, at) as u64,
        permissions: r.permissions,
        cacheability: r.cacheability,
        range_start: at == r.start,
        identity: r.is_identity(),
    }
}

/// The entry at `at` in region `r`.
pub open spec fn entry_at(r: MemoryRegion, at: int) -> TableEntry {
    TableEntry { virt: at as u64, descriptor: mapping_at(r, at).bits() }
}

/// The entries that map region `r` from `at` to its end.
pub open spec fn entries_from(r: MemoryRegion, at: int) -> Seq<TableEntry>
    decreases
        (if at < r.end {
            r.end - at
        } else {
            0
        }),
{
    if at >= r.end {
        Seq::empty()
    } else {
        seq![entry_at(r, at)] + entries_from(r, at + step_at(r, at))
    }
}

/// The entries that map the whole of region `r`.
pub open spec fn region_entries(r: MemoryRegion) -> Seq<TableEntry> {
    entries_from(r, r.start as int)
}

/// The entries that map a list of regions: those of each region, in the
/// order of the list.
pub open spec fn layout_entries(regions: Seq<MemoryRegion>) -> Seq<TableEntry>
    decreases regions.len(),
{
    if regions.len() == 0 {
        Seq::empty()
    } else {
        layout_entries(regions.drop_last()) + region_entries(regions.last())
    }
}

/// Whether a run of entry kinds, laid out from `at` upwards, is a legal way
/// to map region `r` from `at` to its end: a large block stands only where
/// one fits, every entry stays inside the region, and the last one ends
/// where the region ends.
pub open spec fn tiles(r: MemoryRegion, at: int, kinds: Seq<EntryKind>) -> bool
    decreases kinds.len(),
{
    if kinds.len() == 0 {
        at == r.end
    } else {
        &&& kinds[0] is Block ==> block_fits(r, at)
        &&& at + kinds[0].size() <= r.end
        &&& tiles(r, at + kinds[0].size(), kinds.skip(1))
    }
}

/// The kinds of the entries that map region `r` from `at` to its end.
pub open spec fn kinds_from(r: MemoryRegion, at: int) -> Seq<EntryKind>
    decreases
        (if at < r.end {
            r.end - at
        } else {
            0
        }),
{
    if at >= r.end {
        Seq::empty()
    } else {
        seq![kind_at(r, at)] + kinds_from(r, at + step_at(r, at))
    }
}

/// Whether an entry holds a valid descriptor and ends inside the address
/// space.
pub open spec fn entry_ok(e: TableEntry) -> bool {
    &&& decode_bits(e.descriptor) matches Some(m)
    &&& e.virt + m.kind.size() <= ADDRESS_SPACE_END
}

/// The range that a single entry maps, read as a region of its own.
pub open spec fn entry_range(e: TableEntry, m: Mapping) -> MemoryRegion {
    MemoryRegion {
        start: e.virt,
        end: (e.virt + m.kind.size()) as u64,
        permissions: m.permissions,
        cacheability: m.cacheability,
        translation: if m.identity {
            Translation::Identity
        } else {
            Translation::Offset(m.output)
        },
    }
}

/// Region `r`, ending where entry `e` ends.
pub open spec fn extended(r: MemoryRegion, e: TableEntry, m: Mapping) -> MemoryRegion {
    MemoryRegion { end: (e.virt + m.kind.size()) as u64, ..r }
}

/// The mapped ranges that a list of entries describes. An entry marked as a
/// range start opens a new range; every other entry extends the range
/// before it. Entries without a valid descriptor map nothing.
pub open spec fn decode_entries(entries: Seq<TableEntry>) -> Seq<MemoryRegion>
    decreases entries.len(),
{
    if entries.len() == 0 {
        Seq::empty()
    } else {
        let before = decode_entries(entries.drop_last());
        let e = entries.last();
        match decode_bits(e.descriptor) {
            None => before,
            Some(m) => if m.range_start || before.len() == 0 {
                before.push(entry_range(e, m))
            } else {
                before.drop_last().push(extended(before.last(), e, m))
            },
        }
    }
}

/// What an address translates to.
#[derive(Clone, Copy, Debug, PartialEq, Eq, Structural)]
pub struct Translated {
    pub phys: u64,
    pub permissions: Permissions,
    pub cacheability: Cacheability,
}

/// Whether entry `e` maps the address `va`.
pub open spec fn entry_covers(e: TableEntry, va: int) -> bool {
    &&& decode_bits(e.descriptor) matches Some(m)
    &&& e.virt <= va < e.virt + m.kind.size()
}

/// What `va` translates to through entry `e`, given that `e` maps it.
pub open spec fn resolve(e: TableEntry, va: int) -> Translated {
    let m = decode_bits(e.descriptor)->0;
    Translated {
        phys: (m.output + (va - e.virt)) as u64,
        permissions: m.permissions,
        cacheability: m.cacheability,
    }
}

/// What `va` translates to through a list of entries: the answer of the
/// first entry that maps it, or `None` if no entry does.
pub open spec fn lookup(entries: Seq<TableEntry>, va: int) -> Option<Translated>
    decreases entries.len(),
{
    if entries.len() == 0 {
        None
    } else {
        match lookup(entries.drop_last(), va) {
            Some(t) => Some(t),
            None => if entry_covers(entries.last(), va) {
                Some(resolve(entries.last(), va))
            } else {
                None
            },
        }
    }
}

/// What `va` translates to in region `r`, given that `r` holds it.
pub open spec fn expected(r: MemoryRegion, va: int) -> Translated {
    Translated {
        phys: output_at(r, va) as u64,
        permissions: r.permissions,
        cacheability: r.cacheability,
    }
}

/// Whether a list of entries maps every address from `start` up to, but not
/// including, `end`.
pub open spec fn maps_range(entries: Seq<TableEntry>, start: int, end: int) -> bool {
    forall|va: int| start <= va < end ==> (#[trigger] lookup(entries, va)) is Some
}

/// A translation table. It can only be obtained from [`build`], so every
/// table that exists maps a complete, acceptable layout.
pub struct TranslationTable {
    entries: Vec<TableEntry>,
    source: Ghost<Seq<MemoryRegion>>,
}

impl View for TranslationTable {
    type V = Seq<TableEntry>;

    closed spec fn view(&self) -> Seq<TableEntry> {
        self.entries@
    }
}

impl TranslationTable {
    #[verifier::type_invariant]
    spec fn inv(self) -> bool {
        &&& valid_layout(self.source@)
        &&& self.entries@ == layout_entries(self.source@)
    }

    /// The layout that the table was built from.
    pub closed spec fn layout(&self) -> Seq<MemoryRegion> {
        self.source@
    }

    /// Number of entries in the table. Every table holds exactly the
    /// entries of the acceptable layout it was built from.
    pub fn entry_count(&self) -> (n: usize)
        ensures
            n == self@.len(),
            valid_layout(self.layout()),
            self@ == layout_entries(self.layout()),
    {
        proof {
            use_type_invariant(self);
        }
        self.entries.len()
    }

    /// The entry at position `index`, or `None` past the end of the table.
    pub fn entry(&self, index: usize) -> (e: Option<TableEntry>)
        ensures
            e == (if index < self@.len() {
                Some(self@[index as int])
            } else {
                None
            }),
    {
        if index < self.entries.len() {
            Some(self.entries[index])
        } else {
            None
        }
    }

    /// Position of the first entry that maps `va`, if any.
    fn find(&self, va: u64) -> (found: Option<usize>)
        ensures
            found matches Some(k) ==> k < self@.len() && entry_covers(self@[k as int], va as int)
                && lookup(self@, va as int) == Some(resolve(self@[k as int], va as int)),
            found is None ==> lookup(self@, va as int) is None,
    {
        proof {
            use_type_invariant(self);
            lemma_complete_build(self.source@);
        }
        let n: usize = self.entries.len();
        let mut k: usize = 0;
        assert(self.entries@.take(0) =~= Seq::empty());
        while k < n
            invariant
                n == self.entries@.len(),
                k <= n,
                forall|j: int| 0 <= j < n ==> entry_ok(#[trigger] self.entries@[j]),
                lookup(self.entries@.take(k as int), va as int) is None,
            decreases n - k,
        {
            let e = self.entries[k];
            proof {
                let upto = self.entries@.take(k + 1);
                assert(upto.drop_last() =~= self.entries@.take(k as int));
                assert(upto.last() == e);
                assert(entry_ok(self.entries@[k as int]));
            }
            match decode(e.descriptor) {
                None => {},
                Some(m) => {
                    if e.virt <= va && va - e.virt < m.kind.bytes() {
                        proof {
                            lemma_lookup_prefix(self.entries@, k + 1, va as int);
                        }
                        return Some(k);
                    }
                },
            }
            k += 1;
        }
        assert(self.entries@.take(n as int) =~= self.entries@);
        None
    }

    /// Translates a virtual address: the physical address and the attributes
    /// of the first entry that maps it, or `None` if the table maps it
    /// nowhere.
    pub fn translate(&self, va: u64) -> (result: Option<Translated>)
        ensures
            result == lookup(self@, va as int),
    {
        proof {
            use_type_invariant(self);
            lemma_complete_build(self.source@);
        }
        match self.find(va) {
            None => None,
            Some(k) => {
                let e = self.entries[k];
                assert(entry_ok(self.entries@[k as int]));
                proof {
                    lemma_encode_decode(e.descriptor);
                }
                match decode(e.descriptor) {
                    None => None,
                    Some(m) => Some(
                        Translated {
                            phys: m.output + (va - e.virt),
                            permissions: m.permissions,
                            cacheability: m.cacheability,
                        },
                    ),
                }
            },
        }
    }

    /// Tells whether the table maps every address from `start` up to, but
    /// not including, `end`.
    pub fn covers(&self, start: u64, end: u64) -> (covered: bool)
        ensures
            covered == maps_range(self@, start as int, end as int),
    {
        proof {
            use_type_invariant(self);
            lemma_complete_build(self.source@);
        }
        let mut at: u64 = start;
        while at < end
            invariant
                start <= at,
                forall|j: int| 0 <= j < self.entries@.len() ==> entry_ok(#[trigger] self.entries@[j]),
                self@ == self.entries@,
                maps_range(self@, start as int, at as int),
            decreases
                (if at < end {
                    end - at
                } else {
                    0
                }),
        {
            match self.find(at) {
                None => {
                    return false;
                },
                Some(k) => {
                    let e = self.entries[k];
                    assert(entry_ok(self.entries@[k as int]));
                    match decode(e.descriptor) {
                        None => {
                            return false;
                        },
                        Some(m) => {
                            let next: u64 = e.virt + m.kind.bytes();
                            proof {
                                assert forall|va: int| at <= va < next implies (#[trigger] lookup(
                                    self@,
                                    va,
                                )) is Some by {
                                    lemma_lookup_covered(self@, k as int, va);
                                }
                            }
                            at = next;
                        },
                    }
                },
            }
        }
        true
    }

    /// Reads the table back into the ranges it maps, with their attributes,
    /// in table order. These are the regions the table was built from.
    pub fn mapped_ranges(&self) -> (ranges: Vec<MemoryRegion>)
        ensures
            ranges@ == decode_entries(self@),
            ranges@ == self.layout(),
            valid_layout(ranges@),
    {
        proof {
            use_type_invariant(self);
            lemma_complete_build(self.source@);
        }
        let n: usize = self.entries.len();
        let mut ranges: Vec<MemoryRegion> = Vec::new();
        let mut k: usize = 0;
        assert(self.entries@.take(0) =~= Seq::empty());
        while k < n
            invariant
                n == self.entries@.len(),
                k <= n,
                forall|j: int| 0 <= j < n ==> entry_ok(#[trigger] self.entries@[j]),
                ranges@ == decode_entries(self.entries@.take(k as int)),
            decreases n - k,
        {
            let e = self.entries[k];
            proof {
                let upto = self.entries@.take(k + 1);
                assert(upto.drop_last() =~= self.entries@.take(k as int));
                assert(upto.last() == e);
                assert(entry_ok(self.entries@[k as int]));
            }
            match decode(e.descriptor) {
                None => {},
                Some(m) => {
                    let end: u64 = e.virt + m.kind.bytes();
                    let len: usize = ranges.len();
                    if m.range_start || len == 0 {
                        let translation = if m.identity {
                            Translation::Identity
                        } else {
                            Translation::Offset(m.output)
                        };
                        ranges.push(
                            MemoryRegion {
                                start: e.virt,
                                end,
                                permissions: m.permissions,
                                cacheability: m.cacheability,
                                translation,
                            },
                        );
                    } else {
                        let last = ranges[len - 1];
                        let ghost before = ranges@;
                        ranges.set(len - 1, MemoryRegion { end, ..last });
                        assert(ranges@ =~= before.drop_last().push(extended(before.last(), e, m)));
                    }
                },
            }
            k += 1;
        }
        assert(self.entries@.take(n as int) =~= self.entries@);
        ranges
    }
}

/// The step from `at` to the next entry stays inside the region and keeps
/// the granule alignment.
pub proof fn lemma_step_at(r: MemoryRegion, at: int)
    requires
        r.well_formed(),
        r.start <= at < r.end,
        granule_aligned(at),
    ensures
        step_at(r, at) == kind_at(r, at).size(),
        step_at(r, at) == GRANULE || step_at(r, at) == BLOCK,
        at < at + step_at(r, at) <= r.end,
        granule_aligned(at + step_at(r, at)),
        granule_aligned(at + GRANULE),
        at + GRANULE <= r.end,
{
    let end = r.end as int;
    assert(at + 0x1_0000 <= end) by {
        assert(at % 0x1_0000 == 0);
        assert(end % 0x1_0000 == 0);
    }
    assert((at + 0x1_0000) % 0x1_0000 == 0) by {
        assert(at % 0x1_0000 == 0);
    }
    assert(at % 0x2000_0000 == 0 ==> (at + 0x2000_0000) % 0x1_0000 == 0);
}

/// The entry at `at` in a region stays inside the region, keeps the granule
/// alignment and holds a descriptor that decodes to what was encoded.
pub proof fn lemma_entry_at(r: MemoryRegion, at: int)
    requires
        r.well_formed(),
        r.start <= at < r.end,
        granule_aligned(at),
    ensures
        at + step_at(r, at) <= r.end,
        granule_aligned(at + step_at(r, at)),
        step_at(r, at) == kind_at(r, at).size(),
        mapping_at(r, at).well_formed(),
        mapping_at(r, at).output == output_at(r, at),
        decode_bits(entry_at(r, at).descriptor) == Some(mapping_at(r, at)),
        entry_ok(entry_at(r, at)),
{
    let out = output_at(r, at);
    let start = r.start as int;
    let phys = r.phys_start();
    lemma_step_at(r, at);
    assert(out % 0x1_0000 == 0) by {
        assert(at % 0x1_0000 == 0);
        assert(start % 0x1_0000 == 0);
        assert(phys % 0x1_0000 == 0);
    }
    lemma_decode_encode(mapping_at(r, at));
}

/// Makes the entry at `at` in region `r` and tells where the next one
/// starts.
fn next_entry(r: &MemoryRegion, at: u64) -> (made: (TableEntry, u64))
    requires
        r.well_formed(),
        r.start <= at < r.end,
        granule_aligned(at as int),
    ensures
        made.0 == entry_at(*r, at as int),
        made.1 == at + step_at(*r, at as int),
        made.1 <= r.end,
        granule_aligned(made.1 as int),
        entry_ok(made.0),
{
    proof {
        lemma_entry_at(*r, at as int);
    }
    let output: u64 = r.target() + (at - r.start);
    let kind = if at % BLOCK == 0 && output % BLOCK == 0 && r.end - at >= BLOCK {
        EntryKind::Block
    } else {
        EntryKind::Page
    };
    let identity = match r.translation {
        Translation::Identity => true,
        Translation::Offset(_) => false,
    };
    let mapping = Mapping {
        kind,
        output,
        permissions: r.permissions,
        cacheability: r.cacheability,
        range_start: at == r.start,
        identity,
    };
    assert(mapping == mapping_at(*r, at as int));
    (TableEntry { virt: at, descriptor: mapping.encode() }, at + kind.bytes())
}

/// Builds the translation table for a list of regions.
///
/// The build succeeds exactly when the list is an acceptable layout. It then
/// maps every region, entry by entry, with the fewest entries that can map
/// it, and reading the table back gives the list again. Otherwise no table
/// is produced and the first offending region is reported; in particular a
/// region with a misaligned bound is never rounded to fit.
pub fn build(regions: &Vec<MemoryRegion>) -> (result: Result<TranslationTable, LayoutError>)
    ensures
        result is Ok <==> valid_layout(regions@),
        result matches Ok(table) ==> {
            &&& table.layout() == regions@
            &&& table@ == layout_entries(regions@)
            &&& decode_entries(table@) == regions@
        },
        result is Ok ==> forall|i: int, kinds: Seq<EntryKind>|
            0 <= i < regions@.len() && #[trigger] tiles(
                regions@[i],
                regions@[i].start as int,
                kinds,
            ) ==> region_entries(regions@[i]).len() <= kinds.len(),
        result matches Err(e) ==> first_fault(regions@, e),
        (exists|i: int|
            0 <= i < regions@.len() && (!granule_aligned((#[trigger] regions@[i]).start as int)
                || !granule_aligned(regions@[i].end as int))) ==> result is Err,
{
    match check_regions(regions) {
        Err(e) => {
            return Err(e);
        },
        Ok(()) => {},
    }
    proof {
        assert forall|i: int| 0 <= i < regions@.len() implies granule_aligned(
            (#[trigger] regions@[i]).start as int,
        ) && granule_aligned(regions@[i].end as int) by {
            assert(valid_at(regions@, i));
        }
    }
    let n: usize = regions.len();
    let mut entries: Vec<TableEntry> = Vec::new();
    let mut i: usize = 0;
    assert(regions@.take(0) =~= Seq::empty());
    while i < n
        invariant
            n == regions@.len(),
            i <= n,
            valid_layout(regions@),
            entries@ == layout_entries(regions@.take(i as int)),
        decreases n - i,
    {
        let r = regions[i];
        assert(valid_at(regions@, i as int));
        let ghost base = entries@;
        let mut at: u64 = r.start;
        while at < r.end
            invariant
                r.well_formed(),
                r.start <= at <= r.end,
                granule_aligned(at as int),
                entries@ + entries_from(r, at as int) == base + region_entries(r),
            decreases r.end - at,
        {
            let (entry, next) = next_entry(&r, at);
            proof {
                assert(entries@.push(entry) + entries_from(r, next as int) =~= entries@
                    + entries_from(r, at as int));
            }
            entries.push(entry);
            at = next;
        }
        proof {
            let upto = regions@.take(i + 1);
            assert(upto.drop_last() =~= regions@.take(i as int));
            assert(upto.last() == r);
            assert(entries@ + Seq::<TableEntry>::empty() =~= entries@);
        }
        i += 1;
    }
    proof {
        assert(regions@.take(n as int) =~= regions@);
        lemma_complete_build(regions@);
        assert forall|i: int, kinds: Seq<EntryKind>|
            0 <= i < regions@.len() && #[trigger] tiles(
                regions@[i],
                regions@[i].start as int,
                kinds,
            ) implies region_entries(regions@[i]).len() <= kinds.len() by {
            assert(valid_at(regions@, i));
            lemma_region_entries_minimal(regions@[i], kinds);
        }
    }
    Ok(TranslationTable { entries, source: Ghost(regions@) })
}

/// The entries of an acceptable layout read back as the layout, and each of
/// them is well-formed.
pub proof fn lemma_complete_build(regions: Seq<MemoryRegion>)
    requires
        valid_layout(regions),
    ensures
        decode_entries(layout_entries(regions)) == regions,
        forall|k: int|
            0 <= k < layout_entries(regions).len() ==> entry_ok(
                #[trigger] layout_entries(regions)[k],
            ),
{
    assert forall|i: int| 0 <= i < regions.len() implies (#[trigger] regions[i]).well_formed() by {
        assert(valid_at(regions, i));
    }
    lemma_decode_layout_entries(regions);
    lemma_layout_entries_ok(regions);
}

/// Every entry that maps a region from `at` on is well-formed.
proof fn lemma_entries_from_ok(r: MemoryRegion, at: int)
    requires
        r.well_formed(),
        r.start <= at <= r.end,
        granule_aligned(at),
    ensures
        forall|k: int|
            0 <= k < entries_from(r, at).len() ==> entry_ok(#[trigger] entries_from(r, at)[k]),
    decreases r.end - at,
{
    if at < r.end {
        lemma_entry_at(r, at);
        let rest = entries_from(r, at + step_at(r, at));
        lemma_entries_from_ok(r, at + step_at(r, at));
        assert forall|k: int| 0 <= k < entries_from(r, at).len() implies entry_ok(
            #[trigger] entries_from(r, at)[k],
        ) by {
            if k > 0 {
                assert(entries_from(r, at)[k] == rest[k - 1]);
            }
        }
    }
}

/// Every entry that maps a list of well-formed regions is well-formed.
pub proof fn lemma_layout_entries_ok(regions: Seq<MemoryRegion>)
    requires
        forall|i: int| 0 <= i < regions.len() ==> (#[trigger] regions[i]).well_formed(),
    ensures
        forall|k: int|
            0 <= k < layout_entries(regions).len() ==> entry_ok(
                #[trigger] layout_entries(regions)[k],
            ),
    decreases regions.len(),
{
    if regions.len() > 0 {
        let front = regions.drop_last();
        assert forall|i: int| 0 <= i < front.len() implies (#[trigger] front[i]).well_formed() by {
            assert(front[i] == regions[i]);
        }
        lemma_layout_entries_ok(front);
        lemma_entries_from_ok(regions.last(), regions.last().start as int);
        let before = layout_entries(front);
        let added = region_entries(regions.last());
        assert forall|k: int| 0 <= k < layout_entries(regions).len() implies entry_ok(
            #[trigger] layout_entries(regions)[k],
        ) by {
            if k < before.len() {
                assert(layout_entries(regions)[k] == before[k]);
            } else {
                assert(layout_entries(regions)[k] == added[k - before.len()]);
            }
        }
    }
}

/// What a prefix of the entries answers, the whole list answers too.
pub proof fn lemma_lookup_prefix(entries: Seq<TableEntry>, k: int, va: int)
    requires
        0 <= k <= entries.len(),
        lookup(entries.take(k), va) is Some,
    ensures
        lookup(entries, va) == lookup(entries.take(k), va),
    decreases entries.len() - k,
{
    if k == entries.len() {
        assert(entries.take(k) =~= entries);
    } else {
        let upto = entries.take(k + 1);
        assert(upto.drop_last() =~= entries.take(k));
        lemma_lookup_prefix(entries, k + 1, va);
    }
}

/// An address that some entry maps is translated.
pub proof fn lemma_lookup_covered(entries: Seq<TableEntry>, k: int, va: int)
    requires
        0 <= k < entries.len(),
        entry_covers(entries[k], va),
    ensures
        lookup(entries, va) is Some,
{
    let upto = entries.take(k + 1);
    assert(upto.drop_last() =~= entries.take(k));
    assert(upto.last() == entries[k]);
    lemma_lookup_prefix(entries, k + 1, va);
}

/// Looking an address up in two lists joined is looking it up in the first
/// and, if that maps nothing, in the second.
pub proof fn lemma_lookup_concat(a: Seq<TableEntry>, b: Seq<TableEntry>, va: int)
    ensures
        lookup(a + b, va) == (match lookup(a, va) {
            Some(t) => Some(t),
            None => lookup(b, va),
        }),
    decreases b.len(),
{
    if b.len() == 0 {
        assert(a + b =~= a);
    } else {
        assert((a + b).drop_last() =~= a + b.drop_last());
        assert((a + b).last() == b.last());
        lemma_lookup_concat(a, b.drop_last(), va);
    }
}

/// The entries of a region from `at` on map exactly the addresses from `at`
/// to the region's end, each to its place in the region's target and with
/// the region's attributes.
pub proof fn lemma_lookup_entries_from(r: MemoryRegion, at: int, va: int)
    requires
        r.well_formed(),
        r.start <= at <= r.end,
        granule_aligned(at),
    ensures
        lookup(entries_from(r, at), va) == (if at <= va < r.end {
            Some(expected(r, va))
        } else {
            None
        }),
    decreases r.end - at,
{
    if at < r.end {
        let e = entry_at(r, at);
        let next = at + step_at(r, at);
        lemma_entry_at(r, at);
        lemma_lookup_entries_from(r, next, va);
        lemma_lookup_concat(seq![e], entries_from(r, next), va);
        assert(seq![e].drop_last() =~= Seq::<TableEntry>::empty());
        assert(seq![e].last() == e);
        assert(lookup(seq![e].drop_last(), va) is None);
    }
}

/// Address translation through the entries of an acceptable layout follows
/// the layout: an address inside a region maps into that region's target
/// with that region's attributes, and an address outside every region maps
/// nowhere.
pub proof fn lemma_lookup_layout(regions: Seq<MemoryRegion>, va: int)
    requires
        valid_layout(regions),
    ensures
        forall|i: int|
            0 <= i < regions.len() && (#[trigger] regions[i]).contains(va) ==> lookup(
                layout_entries(regions),
                va,
            ) == Some(expected(regions[i], va)),
        (forall|i: int| 0 <= i < regions.len() ==> !(#[trigger] regions[i]).contains(va))
            ==> lookup(layout_entries(regions), va) is None,
    decreases regions.len(),
{
    if regions.len() > 0 {
        let front = regions.drop_last();
        let last = regions.last();
        let n = front.len() as int;
        assert forall|i: int| 0 <= i < front.len() implies valid_at(front, i) by {
            assert(valid_at(regions, i));
            assert forall|j: int| 0 <= j < i implies !(#[trigger] front[j]).overlaps(front[i]) by {
                assert(front[j] == regions[j]);
            }
        }
        lemma_lookup_layout(front, va);
        assert(valid_at(regions, n));
        lemma_lookup_entries_from(last, last.start as int, va);
        lemma_lookup_concat(layout_entries(front), region_entries(last), va);
        assert forall|i: int| 0 <= i < regions.len() && (#[trigger] regions[i]).contains(
            va,
        ) implies lookup(layout_entries(regions), va) == Some(expected(regions[i], va)) by {
            if i < n {
                assert(front[i] == regions[i]);
            } else {
                assert forall|j: int| 0 <= j < front.len() implies !(#[trigger] front[j]).contains(
                    va,
                ) by {
                    assert(front[j] == regions[j]);
                    assert(!regions[j].overlaps(regions[n]));
                }
            }
        }
        if forall|i: int| 0 <= i < regions.len() ==> !(#[trigger] regions[i]).contains(va) {
            assert forall|j: int| 0 <= j < front.len() implies !(#[trigger] front[j]).contains(
                va,
            ) by {
                assert(front[j] == regions[j]);
            }
            assert(!regions[n].contains(va));
        }
    }
}

/// The entries of a region are as many as their kinds.
pub proof fn lemma_kinds_len(r: MemoryRegion, at: int)
    requires
        r.well_formed(),
        r.start <= at <= r.end,
        granule_aligned(at),
    ensures
        kinds_from(r, at).len() == entries_from(r, at).len(),
    decreases r.end - at,
{
    if at < r.end {
        lemma_step_at(r, at);
        lemma_kinds_len(r, at + step_at(r, at));
    }
}

/// The entries that the builder makes for a region are a legal way to map
/// it.
pub proof fn lemma_entries_tile(r: MemoryRegion, at: int)
    requires
        r.well_formed(),
        r.start <= at <= r.end,
        granule_aligned(at),
    ensures
        tiles(r, at, kinds_from(r, at)),
    decreases r.end - at,
{
    if at < r.end {
        lemma_step_at(r, at);
        let next = at + step_at(r, at);
        lemma_entries_tile(r, next);
        let kinds = kinds_from(r, at);
        assert(kinds[0] == kind_at(r, at));
        assert(kinds.skip(1) =~= kinds_from(r, next));
    }
}

/// Number of entries that map region `r` from `at` to its end.
pub open spec fn count_from(r: MemoryRegion, at: int) -> nat {
    entries_from(r, at).len()
}

/// The count of entries from `at` is one more than the count from the next
/// entry on.
proof fn lemma_count_step(r: MemoryRegion, at: int)
    requires
        at < r.end,
    ensures
        count_from(r, at) == 1 + count_from(r, at + step_at(r, at)),
{
}

/// A granule-aligned address strictly inside a large block is not
/// block-aligned, and the granule that starts there ends inside the block.
proof fn lemma_inside_block(base: int, at: int)
    requires
        block_aligned(base),
        granule_aligned(at),
        base < at < base + BLOCK,
    ensures
        !block_aligned(at),
        at + GRANULE <= base + BLOCK,
        granule_aligned(at + GRANULE),
{
    let b = base / 0x2000_0000;
    let g = at / 0x1_0000;
    assert(base == 0x2000_0000 * b);
    assert(at == 0x1_0000 * g);
    assert(0x2000 * b < g < 0x2000 * b + 0x2000);
}

/// Inside a large block that fits, the builder needs one page for every
/// granule up to the block's end.
proof fn lemma_pages_inside_block(r: MemoryRegion, base: int, at: int)
    requires
        block_fits(r, base),
        base < at <= base + BLOCK,
        granule_aligned(at),
    ensures
        count_from(r, at) >= count_from(r, base + BLOCK),
    decreases base + BLOCK - at,
{
    if at < base + BLOCK {
        lemma_inside_block(base, at);
        assert(step_at(r, at) == GRANULE);
        lemma_count_step(r, at);
        lemma_pages_inside_block(r, base, at + GRANULE);
    }
}

/// No legal way to map a region from `at` on takes fewer entries than the
/// builder does.
pub proof fn lemma_entries_minimal(r: MemoryRegion, at: int, kinds: Seq<EntryKind>)
    requires
        r.well_formed(),
        r.start <= at <= r.end,
        granule_aligned(at),
        tiles(r, at, kinds),
    ensures
        entries_from(r, at).len() <= kinds.len(),
    decreases kinds.len(),
{
    if at < r.end {
        lemma_step_at(r, at);
        lemma_count_step(r, at);
        let first = kinds[0];
        let rest = kinds.skip(1);
        let own = step_at(r, at);
        if first is Block {
            assert(own == BLOCK);
            lemma_entries_minimal(r, at + BLOCK, rest);
        } else {
            lemma_entries_minimal(r, at + GRANULE, rest);
            if own == BLOCK {
                lemma_pages_inside_block(r, at, at + GRANULE);
            }
        }
    }
}

/// The table entries of a region are the fewest that can map it: no legal
/// arrangement of pages and large blocks over the region is shorter.
pub proof fn lemma_region_entries_minimal(r: MemoryRegion, kinds: Seq<EntryKind>)
    requires
        r.well_formed(),
        tiles(r, r.start as int, kinds),
    ensures
        region_entries(r).len() <= kinds.len(),
{
    lemma_entries_minimal(r, r.start as int, kinds);
}

/// Appending the remaining entries of a region to entries that already
/// describe the region up to `at` completes the region.
proof fn lemma_decode_region_tail(
    done: Seq<TableEntry>,
    before: Seq<MemoryRegion>,
    r: MemoryRegion,
    at: int,
)
    requires
        r.well_formed(),
        r.start < at <= r.end,
        granule_aligned(at),
        decode_entries(done) == before.push(MemoryRegion { end: at as u64, ..r }),
    ensures
        decode_entries(done + entries_from(r, at)) == before.push(r),
    decreases r.end - at,
{
    if at >= r.end {
        assert(done + entries_from(r, at) =~= done);
    } else {
        let e = entry_at(r, at);
        let m = mapping_at(r, at);
        let next = at + step_at(r, at);
        lemma_entry_at(r, at);
        let grown = done.push(e);
        assert(grown.drop_last() =~= done);
        assert(grown.last() == e);
        let partial = MemoryRegion { end: at as u64, ..r };
        assert(before.push(partial).drop_last() =~= before);
        assert(decode_entries(grown) == before.push(MemoryRegion { end: next as u64, ..r }));
        lemma_decode_region_tail(grown, before, r, next);
        assert(grown + entries_from(r, next) =~= done + entries_from(r, at));
    }
}

/// Appending the entries of a whole region adds that region to what the
/// entries before it describe.
proof fn lemma_decode_region(done: Seq<TableEntry>, r: MemoryRegion)
    requires
        r.well_formed(),
    ensures
        decode_entries(done + region_entries(r)) == decode_entries(done).push(r),
{
    let at = r.start as int;
    let e = entry_at(r, at);
    let m = mapping_at(r, at);
    let next = at + step_at(r, at);
    lemma_entry_at(r, at);
    let grown = done.push(e);
    assert(grown.drop_last() =~= done);
    assert(grown.last() == e);
    assert(entry_range(e, m) == MemoryRegion { end: next as u64, ..r });
    lemma_decode_region_tail(grown, decode_entries(done), r, next);
    assert(grown + entries_from(r, next) =~= done + region_entries(r));
}

/// Reading back the entries of a list of well-formed regions gives the list:
/// the same boundaries and the same attributes, in the same order.
pub proof fn lemma_decode_layout_entries(regions: Seq<MemoryRegion>)
    requires
        forall|i: int| 0 <= i < regions.len() ==> (#[trigger] regions[i]).well_formed(),
    ensures
        decode_entries(layout_entries(regions)) == regions,
    decreases regions.len(),
{
    if regions.len() == 0 {
        assert(decode_entries(layout_entries(regions)) =~= regions);
    } else {
        let front = regions.drop_last();
        assert forall|i: int| 0 <= i < front.len() implies (#[trigger] front[i]).well_formed() by {
            assert(front[i] == regions[i]);
        }
        lemma_decode_layout_entries(front);
        lemma_decode_region(layout_entries(front), regions.last());
        assert(front.push(regions.last()) =~= regions);
    }
}

} // verus!
