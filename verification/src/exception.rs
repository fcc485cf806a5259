//! Exception vectors: one handler slot per trap cause, installed once, and
//! the classification of a trap on entry.
//!
//! Slots are filled while the table is uninstalled. Installing checks once
//! that no slot is empty; from then on the table is read-only and every trap
//! finds its handler.

use vstd::prelude::*;

verus! {

/// Number of slots in a vector table: four trap kinds from four origins.
pub const SLOT_COUNT: usize = 16;

/// The privilege level code runs at.
#[derive(Clone, Copy, Debug, PartialEq, Eq, Structural)]
pub enum PrivilegeLevel {
    User,
    Kernel,
    Hypervisor,
    Unknown,
}

/// What kind of event raised a trap.
#[derive(Clone, Copy, Debug, PartialEq, Eq, Structural)]
pub enum TrapKind {
    /// Raised by the instruction being executed.
    Synchronous,
    /// Interrupt request from a peripheral.
    Irq,
    /// Fast interrupt request.
    Fiq,
    /// Asynchronous system error.
    SError,
}

/// Where the core was running when the trap was taken.
#[derive(Clone, Copy, Debug, PartialEq, Eq, Structural)]
pub enum TrapOrigin {
    /// Same privilege level, on the shared stack pointer.
    CurrentLevelSharedStack,
    /// Same privilege level, on its own stack pointer.
    CurrentLevelOwnStack,
    /// A lower privilege level in 64-bit state.
    LowerLevelWide,
    /// A lower privilege level in 32-bit state.
    LowerLevelNarrow,
}

/// A trap cause: the key of one vector slot.
#[derive(Clone, Copy, Debug, PartialEq, Eq, Structural)]
pub struct TrapCause {
    pub origin: TrapOrigin,
    pub kind: TrapKind,
}

/// An opaque token that stands for a handler. What runs for a token is the
/// caller's business.
#[derive(Clone, Copy, Debug, PartialEq, Eq, Structural)]
pub struct Handler {
    pub id: u64,
}

/// Why a vector operation was refused, or why a trap is fatal.
#[derive(Clone, Copy, Debug, PartialEq, Eq, Structural)]
pub enum VectorError {
    /// The table is installed; it is installed once and not changed after.
    AlreadyInstalled,
    /// The slot for this cause holds no handler.
    EmptySlot(TrapCause),
    /// A trap was taken before the table was installed.
    NotInstalled,
}

/// What is known about a synchronous fault.
#[derive(Clone, Copy, Debug, PartialEq, Eq, Structural)]
pub struct FaultReport {
    pub cause: TrapCause,
    /// The syndrome value that encodes the reason for the fault.
    pub syndrome: u64,
    /// The address whose access faulted.
    pub fault_address: u64,
    /// The level whose vector table took the trap.
    pub level: PrivilegeLevel,
}

/// What to do about a trap.
#[derive(Clone, Copy, Debug, PartialEq, Eq, Structural)]
pub enum TrapAction {
    /// A synchronous trap: run the handler with the report, then halt.
    ReportFault { handler: Handler, report: FaultReport },
    /// An asynchronous trap: run the handler, which hands the pending source
    /// to interrupt dispatch.
    DispatchInterrupt { handler: Handler, kind: TrapKind },
    /// No handler can be run: halt.
    Halt(VectorError),
}

impl VectorError {
    /// What the error is called in a report.
    pub open spec fn text(self) -> Seq<char> {
        match self {
            VectorError::AlreadyInstalled => "exception vectors are already installed"@,
            VectorError::EmptySlot(cause) => "exception vector slot is empty"@,
            VectorError::NotInstalled => "exception vectors are not installed"@,
        }
    }

    /// What the error is called in a report.
    pub fn message(&self) -> (message: &'static str)
        ensures
            message@ == self.text(),
    {
        match self {
            VectorError::AlreadyInstalled => "exception vectors are already installed",
            VectorError::EmptySlot(_) => "exception vector slot is empty",
            VectorError::NotInstalled => "exception vectors are not installed",
        }
    }
}

impl PrivilegeLevel {
    /// The level's short name.
    pub fn name(&self) -> (name: &'static str)
        ensures
            name@ == (match *self {
                PrivilegeLevel::User => "EL0"@,
                PrivilegeLevel::Kernel => "EL1"@,
                PrivilegeLevel::Hypervisor => "EL2"@,
                PrivilegeLevel::Unknown => "Unknown"@,
            }),
    {
        match self {
            PrivilegeLevel::User => "EL0",
            PrivilegeLevel::Kernel => "EL1",
            PrivilegeLevel::Hypervisor => "EL2",
            PrivilegeLevel::Unknown => "Unknown",
        }
    }
}

impl TrapKind {
    /// Position of the kind within an origin's group of slots.
    pub open spec fn index(self) -> int {
        match self {
            TrapKind::Synchronous => 0,
            TrapKind::Irq => 1,
            TrapKind::Fiq => 2,
            TrapKind::SError => 3,
        }
    }

    /// Whether traps of this kind are raised by the executing instruction.
    pub open spec fn synchronous(self) -> bool {
        self is Synchronous
    }
}

impl TrapOrigin {
    /// Position of the origin's group of slots.
    pub open spec fn index(self) -> int {
        match self {
            TrapOrigin::CurrentLevelSharedStack => 0,
            TrapOrigin::CurrentLevelOwnStack => 1,
            TrapOrigin::LowerLevelWide => 2,
            TrapOrigin::LowerLevelNarrow => 3,
        }
    }
}

impl TrapCause {
    /// The slot that belongs to the cause.
    pub open spec fn slot(self) -> int {
        self.origin.index() * 4 + self.kind.index()
    }

    /// The slot that belongs to the cause.
    pub fn slot_index(&self) -> (slot: usize)
        ensures
            slot == self.slot(),
            slot < SLOT_COUNT,
    {
        let origin: usize = match self.origin {
            TrapOrigin::CurrentLevelSharedStack => 0,
            TrapOrigin::CurrentLevelOwnStack => 1,
            TrapOrigin::LowerLevelWide => 2,
            TrapOrigin::LowerLevelNarrow => 3,
        };
        let kind: usize = match self.kind {
            TrapKind::Synchronous => 0,
            TrapKind::Irq => 1,
            TrapKind::Fiq => 2,
            TrapKind::SError => 3,
        };
        origin * 4 + kind
    }

    /// The cause that a slot belongs to.
    pub open spec fn of_slot(slot: int) -> TrapCause {
        TrapCause {
            origin: if slot / 4 == 0 {
                TrapOrigin::CurrentLevelSharedStack
            } else if slot / 4 == 1 {
                TrapOrigin::CurrentLevelOwnStack
            } else if slot / 4 == 2 {
                TrapOrigin::LowerLevelWide
            } else {
                TrapOrigin::LowerLevelNarrow
            },
            kind: if slot % 4 == 0 {
                TrapKind::Synchronous
            } else if slot % 4 == 1 {
                TrapKind::Irq
            } else if slot % 4 == 2 {
                TrapKind::Fiq
            } else {
                TrapKind::SError
            },
        }
    }

    /// The cause that a slot belongs to, or `None` for a slot number that no
    /// table has.
    pub fn from_slot(slot: usize) -> (cause: Option<TrapCause>)
        ensures
            cause == (if slot < SLOT_COUNT {
                Some(TrapCause::of_slot(slot as int))
            } else {
                None
            }),
            cause matches Some(c) ==> c.slot() == slot,
    {
        if slot < SLOT_COUNT {
            Some(cause_at(slot))
        } else {
            None
        }
    }
}

/// The cause that the slot `slot` of a table belongs to.
fn cause_at(slot: usize) -> (cause: TrapCause)
    requires
        slot < SLOT_COUNT,
    ensures
        cause == TrapCause::of_slot(slot as int),
        cause.slot() == slot,
{
    let origin = if slot / 4 == 0 {
        TrapOrigin::CurrentLevelSharedStack
    } else if slot / 4 == 1 {
        TrapOrigin::CurrentLevelOwnStack
    } else if slot / 4 == 2 {
        TrapOrigin::LowerLevelWide
    } else {
        TrapOrigin::LowerLevelNarrow
    };
    let kind = if slot % 4 == 0 {
        TrapKind::Synchronous
    } else if slot % 4 == 1 {
        TrapKind::Irq
    } else if slot % 4 == 2 {
        TrapKind::Fiq
    } else {
        TrapKind::SError
    };
    TrapCause { origin, kind }
}

/// The state of a vector table, as contracts see it.
pub struct VectorState {
    /// The handler of each slot, by slot index.
    pub slots: Seq<Option<Handler>>,
    /// Whether the table has been installed.
    pub installed: bool,
    /// The level the table serves.
    pub level: PrivilegeLevel,
}

impl VectorState {
    /// Whether every slot holds a handler.
    pub open spec fn complete(self) -> bool {
        forall|slot: int| 0 <= slot < self.slots.len() ==> (#[trigger] self.slots[slot]) is Some
    }

    /// Whether `slot` is the first empty slot.
    pub open spec fn first_empty(self, slot: int) -> bool {
        &&& 0 <= slot < self.slots.len()
        &&& self.slots[slot] is None
        &&& forall|k: int| 0 <= k < slot ==> (#[trigger] self.slots[k]) is Some
    }

    /// What a trap with the given cause leads to.
    pub open spec fn action(self, cause: TrapCause, syndrome: u64, fault_address: u64)
        -> TrapAction {
        if !self.installed {
            TrapAction::Halt(VectorError::NotInstalled)
        } else {
            match self.slots[cause.slot()] {
                None => TrapAction::Halt(VectorError::EmptySlot(cause)),
                Some(handler) => if cause.kind.synchronous() {
                    TrapAction::ReportFault {
                        handler,
                        report: FaultReport { cause, syndrome, fault_address, level: self.level },
                    }
                } else {
                    TrapAction::DispatchInterrupt { handler, kind: cause.kind }
                },
            }
        }
    }
}

/// A copy of `slots` with `handler` in slot `at`.
fn with_slot(slots: &Vec<Option<Handler>>, at: usize, handler: Handler) -> (changed: Vec<
    Option<Handler>,
>)
    requires
        at < slots@.len(),
    ensures
        changed@ == slots@.update(at as int, Some(handler)),
{
    let n: usize = slots.len();
    let mut changed: Vec<Option<Handler>> = Vec::new();
    let mut i: usize = 0;
    while i < n
        invariant
            n == slots@.len(),
            at < n,
            i <= n,
            changed@ == slots@.update(at as int, Some(handler)).take(i as int),
        decreases n - i,
    {
        let value = if i == at {
            Some(handler)
        } else {
            slots[i]
        };
        changed.push(value);
        assert(changed@ =~= slots@.update(at as int, Some(handler)).take(i + 1));
        i += 1;
    }
    assert(changed@ =~= slots@.update(at as int, Some(handler)));
    changed
}

/// The exception vector table of one privilege level.
pub struct ExceptionVectorTable {
    slots: Vec<Option<Handler>>,
    installed: bool,
    level: PrivilegeLevel,
}

impl View for ExceptionVectorTable {
    type V = VectorState;

    closed spec fn view(&self) -> VectorState {
        VectorState { slots: self.slots@, installed: self.installed, level: self.level }
    }
}

impl ExceptionVectorTable {
    #[verifier::type_invariant]
    spec fn inv(self) -> bool {
        &&& self.slots@.len() == SLOT_COUNT
        &&& self.installed ==> forall|slot: int|
            0 <= slot < self.slots@.len() ==> (#[trigger] self.slots@[slot]) is Some
    }

    /// An uninstalled table for `level` with every slot empty.
    pub fn new(level: PrivilegeLevel) -> (table: ExceptionVectorTable)
        ensures
            table@.slots.len() == SLOT_COUNT,
            forall|slot: int| 0 <= slot < SLOT_COUNT ==> (#[trigger] table@.slots[slot]) is None,
            !table@.installed,
            table@.level == level,
    {
        let mut slots: Vec<Option<Handler>> = Vec::new();
        let mut i: usize = 0;
        while i < SLOT_COUNT
            invariant
                i <= SLOT_COUNT,
                slots@.len() == i,
                forall|slot: int| 0 <= slot < i ==> (#[trigger] slots@[slot]) is None,
            decreases SLOT_COUNT - i,
        {
            slots.push(None);
            i += 1;
        }
        ExceptionVectorTable { slots, installed: false, level }
    }

    /// Whether the table has been installed.
    pub fn is_installed(&self) -> (installed: bool)
        ensures
            installed == self@.installed,
            installed ==> self@.complete(),
            self@.slots.len() == SLOT_COUNT,
    {
        proof {
            use_type_invariant(self);
        }
        self.installed
    }

    /// The level the table serves.
    pub fn level(&self) -> (level: PrivilegeLevel)
        ensures
            level == self@.level,
    {
        self.level
    }

    /// The handler in the slot of `cause`, if any.
    pub fn handler(&self, cause: TrapCause) -> (handler: Option<Handler>)
        ensures
            self@.slots.len() == SLOT_COUNT,
            handler == self@.slots[cause.slot()],
    {
        proof {
            use_type_invariant(self);
        }
        self.slots[cause.slot_index()]
    }

    /// Puts `handler` into the slot of `cause`, replacing what was there.
    /// Refused once the table is installed; the table is then unchanged.
    pub fn set_handler(&mut self, cause: TrapCause, handler: Handler) -> (result: Result<
        (),
        VectorError,
    >)
        ensures
            old(self)@.slots.len() == SLOT_COUNT,
            old(self)@.installed ==> result == Err::<(), VectorError>(
                VectorError::AlreadyInstalled,
            ) && final(self)@ == old(self)@,
            !old(self)@.installed ==> result is Ok && final(self)@ == (VectorState {
                slots: old(self)@.slots.update(cause.slot(), Some(handler)),
                ..old(self)@
            }),
    {
        proof {
            use_type_invariant(&*self);
        }
        if self.installed {
            return Err(VectorError::AlreadyInstalled);
        }
        self.slots = with_slot(&self.slots, cause.slot_index(), handler);
        Ok(())
    }

    /// Installs the table.
    ///
    /// Succeeds when the table is uninstalled and every slot holds a
    /// handler; the table is then installed and otherwise as before. A
    /// second installation is refused, and so is one with an empty slot, of
    /// which the first is named. A refusal changes nothing.
    pub fn handling_init(&mut self) -> (result: Result<(), VectorError>)
        ensures
            old(self)@.installed ==> result == Err::<(), VectorError>(
                VectorError::AlreadyInstalled,
            ),
            !old(self)@.installed && old(self)@.complete() ==> result is Ok,
            !old(self)@.installed && !old(self)@.complete() ==> (result matches Err(
                VectorError::EmptySlot(cause),
            ) && old(self)@.first_empty(cause.slot())),
            result is Ok ==> final(self)@ == (VectorState { installed: true, ..old(self)@ }),
            result is Err ==> final(self)@ == old(self)@,
    {
        proof {
            use_type_invariant(&*self);
        }
        if self.installed {
            return Err(VectorError::AlreadyInstalled);
        }
        let mut slot: usize = 0;
        while slot < SLOT_COUNT
            invariant
                slot <= SLOT_COUNT,
                self.slots@.len() == SLOT_COUNT,
                *self == *old(self),
                !self.installed,
                forall|k: int| 0 <= k < slot ==> (#[trigger] self.slots@[k]) is Some,
            decreases SLOT_COUNT - slot,
        {
            if self.slots[slot].is_none() {
                return Err(VectorError::EmptySlot(cause_at(slot)));
            }
            slot += 1;
        }
        self.installed = true;
        Ok(())
    }

    /// Classifies a trap.
    ///
    /// On an installed table a synchronous trap leads to a fault report
    /// that carries the cause, the syndrome, the faulting address and the
    /// table's privilege level; an asynchronous one is handed on to
    /// interrupt dispatch. Either way the handler of the cause's slot is
    /// named. A trap on an uninstalled table, or into an empty slot, is
    /// fatal.
    pub fn handle(&self, cause: TrapCause, syndrome: u64, fault_address: u64) -> (action:
        TrapAction)
        ensures
            action == self@.action(cause, syndrome, fault_address),
            self@.installed ==> !(action is Halt),
    {
        proof {
            use_type_invariant(self);
        }
        if !self.installed {
            return TrapAction::Halt(VectorError::NotInstalled);
        }
        match self.slots[cause.slot_index()] {
            None => TrapAction::Halt(VectorError::EmptySlot(cause)),
            Some(handler) => match cause.kind {
                TrapKind::Synchronous => TrapAction::ReportFault {
                    handler,
                    report: FaultReport { cause, syndrome, fault_address, level: self.level },
                },
                kind => TrapAction::DispatchInterrupt { handler, kind },
            },
        }
    }
}

} // verus!
