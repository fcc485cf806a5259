//! MMU activation: the one-way step from untranslated to translated memory
//! access.
//!
//! The controller starts `Inactive`. A successful [`Mmu::init`] makes it
//! `Active` and hands the table over for good; nothing leads back. Every
//! refused activation leaves the controller exactly as it was.

use vstd::prelude::*;
use crate::table::{lookup, maps_range, TableEntry, TranslationTable};

verus! {

/// Whether address translation is on.
#[derive(Clone, Copy, Debug, PartialEq, Eq, Structural)]
pub enum MmuState {
    Inactive,
    Active,
}

/// A range of virtual addresses, `start` inclusive to `end` exclusive.
#[derive(Clone, Copy, Debug, PartialEq, Eq, Structural)]
pub struct AddressRange {
    pub start: u64,
    pub end: u64,
}

/// Why an activation was refused.
#[derive(Clone, Copy, Debug, PartialEq, Eq, Structural)]
pub enum MmuError {
    /// Translation is already on; it is never programmed a second time.
    AlreadyActive,
    /// The hardware does not support the translation granule.
    GranuleUnsupported,
    /// The table leaves part of the required range at `index` unmapped.
    Uncovered { index: usize },
}

impl MmuError {
    /// What the refusal is called in a report.
    pub open spec fn text(self) -> Seq<char> {
        match self {
            MmuError::AlreadyActive => "MMU is already active"@,
            MmuError::GranuleUnsupported => "64 KiB translation granule not supported"@,
            MmuError::Uncovered { index } => "translation table leaves a required range unmapped"@,
        }
    }

    /// What the refusal is called in a report.
    pub fn message(&self) -> (message: &'static str)
        ensures
            message@ == self.text(),
    {
        match self {
            MmuError::AlreadyActive => "MMU is already active",
            MmuError::GranuleUnsupported => "64 KiB translation granule not supported",
            MmuError::Uncovered { index: _ } => "translation table leaves a required range unmapped",
        }
    }
}

/// Whether the table maps the whole of the required range at index `i`.
pub open spec fn range_mapped(entries: Seq<TableEntry>, required: Seq<AddressRange>, i: int) -> bool {
    maps_range(entries, required[i].start as int, required[i].end as int)
}

/// Whether `outcome` is what an activation attempt must answer. The checks
/// come in a fixed order: the state, then the hardware's granule support,
/// then the required ranges, of which the first unmapped one is reported.
pub open spec fn init_outcome(
    state: MmuState,
    entries: Seq<TableEntry>,
    required: Seq<AddressRange>,
    granule_supported: bool,
    outcome: Result<(), MmuError>,
) -> bool {
    if state is Active {
        outcome == Err::<(), MmuError>(MmuError::AlreadyActive)
    } else if !granule_supported {
        outcome == Err::<(), MmuError>(MmuError::GranuleUnsupported)
    } else {
        match outcome {
            Ok(()) => forall|i: int| 0 <= i < required.len() ==> range_mapped(entries, required, i),
            Err(MmuError::Uncovered { index }) => {
                &&& index < required.len()
                &&& !range_mapped(entries, required, index as int)
                &&& forall|i: int| 0 <= i < index ==> range_mapped(entries, required, i)
            },
            Err(_) => false,
        }
    }
}

/// The MMU activation controller.
pub struct Mmu {
    table: Option<TranslationTable>,
}

impl Mmu {
    /// The table that translation runs on, once active.
    pub closed spec fn live_table(&self) -> Option<Seq<TableEntry>> {
        match self.table {
            Some(table) => Some(table@),
            None => None,
        }
    }

    /// The activation state: active exactly when a table is live.
    pub open spec fn state_of(&self) -> MmuState {
        if self.live_table() is Some {
            MmuState::Active
        } else {
            MmuState::Inactive
        }
    }

    /// What `va` resolves to: itself while translation is off, and whatever
    /// the live table says once it is on.
    pub open spec fn resolution(&self, va: int) -> Option<u64> {
        match self.live_table() {
            None => Some(va as u64),
            Some(entries) => match lookup(entries, va) {
                Some(t) => Some(t.phys),
                None => None,
            },
        }
    }

    /// A controller with translation off.
    pub fn new() -> (mmu: Mmu)
        ensures
            mmu.state_of() is Inactive,
            mmu.live_table() is None,
    {
        Mmu { table: None }
    }

    /// The current activation state.
    pub fn state(&self) -> (state: MmuState)
        ensures
            state == self.state_of(),
    {
        match &self.table {
            Some(_) => MmuState::Active,
            None => MmuState::Inactive,
        }
    }

    /// Turns translation on with `table`.
    ///
    /// Succeeds when the controller is inactive, the hardware supports the
    /// granule and the table maps every required range completely. The
    /// controller is then active and owns the table. In every other case the
    /// attempt is refused with the reason and the controller is unchanged;
    /// in particular a second activation never replaces the live table.
    pub fn init(
        &mut self,
        table: TranslationTable,
        required: &Vec<AddressRange>,
        granule_supported: bool,
    ) -> (result: Result<(), MmuError>)
        ensures
            init_outcome(old(self).state_of(), table@, required@, granule_supported, result),
            result is Ok ==> final(self).state_of() is Active && final(self).live_table() == Some(
                table@,
            ),
            result is Err ==> final(self).live_table() == old(self).live_table(),
            old(self).state_of() is Active ==> result == Err::<(), MmuError>(
                MmuError::AlreadyActive,
            ),
    {
        if self.table.is_some() {
            return Err(MmuError::AlreadyActive);
        }
        if !granule_supported {
            return Err(MmuError::GranuleUnsupported);
        }
        let n: usize = required.len();
        let mut i: usize = 0;
        while i < n
            invariant
                n == required@.len(),
                i <= n,
                granule_supported,
                *self == *old(self),
                old(self).live_table() is None,
                forall|k: int| 0 <= k < i ==> range_mapped(table@, required@, k),
            decreases n - i,
        {
            let range = required[i];
            if !table.covers(range.start, range.end) {
                return Err(MmuError::Uncovered { index: i });
            }
            i += 1;
        }
        self.table = Some(table);
        Ok(())
    }

    /// The live table, once translation is on.
    pub fn table(&self) -> (table: Option<&TranslationTable>)
        ensures
            match table {
                Some(t) => self.live_table() == Some(t@),
                None => self.live_table() is None,
            },
    {
        self.table.as_ref()
    }

    /// Resolves an address as memory accesses currently do: unchanged while
    /// translation is off, through the live table once it is on. An address
    /// captured before activation has to be resolved again afterwards.
    pub fn resolve(&self, va: u64) -> (phys: Option<u64>)
        ensures
            phys == self.resolution(va as int),
    {
        match &self.table {
            None => Some(va),
            Some(table) => match table.translate(va) {
                Some(t) => Some(t.phys),
                None => None,
            },
        }
    }
}

} // verus!
