//! The core as a whole: the boot sequence together with the components it
//! brings up.
//!
//! A [`Kernel`] owns the exception vectors, the MMU controller and the
//! interrupt controller, and lets each of them take its step only when the
//! boot sequence asks for it. A step taken out of turn is refused and
//! changes nothing, so the boot order cannot be bypassed: translation is
//! never on before the vectors are installed, and interrupts are never
//! unmasked before translation is on and every driver has had its turn to
//! register.

use vstd::prelude::*;
use crate::boot::{
    consistent,
    diagnostic_for,
    initial_progress,
    lemma_initial_consistent,
    next_progress,
    rank,
    BootAction,
    BootSequence,
    BootState,
    CoreLifecycleState,
    Diagnostic,
    StepOutcome,
};
use crate::exception::{
    ExceptionVectorTable,
    Handler,
    PrivilegeLevel,
    TrapAction,
    TrapCause,
    VectorError,
    VectorState,
    SLOT_COUNT,
};
use crate::irq::{
    lemma_one_handler_per_source,
    lemma_position_after_enable,
    position,
    InterruptController,
    IrqError,
    IrqHandlerDescriptor,
    IrqState,
    Registration,
};
use crate::layout::{first_fault, valid_layout, LayoutError, MemoryRegion};
use crate::mmu::{init_outcome, AddressRange, Mmu, MmuError, MmuState};
use crate::table::{build, layout_entries, TableEntry};

verus! {

/// Why a step was refused without being tried.
#[derive(Clone, Copy, Debug, PartialEq, Eq, Structural)]
pub enum StepError {
    /// The boot sequence is waiting for another action, the one named.
    OutOfOrder { expected: BootAction },
    /// The vector table refused the change.
    Vector(VectorError),
    /// The interrupt controller refused the change.
    Irq(IrqError),
}

/// The state of the core, as contracts see it.
pub struct KernelState {
    pub boot: BootState,
    pub vectors: VectorState,
    /// The live translation table, once the MMU is active.
    pub table: Option<Seq<TableEntry>>,
    pub irq: IrqState,
}

/// Whether an action is performed outside the kernel and only reported to
/// it.
pub open spec fn external(action: BootAction) -> bool {
    action is InitHeap || action is InitDriver || action is CompleteDriverInit
}

/// Whether `diagnostic` is what the boot sequence in `state` reports for a
/// failure whose reason reads `text`.
pub open spec fn reports(diagnostic: Option<Diagnostic>, state: BootState, text: Seq<char>) -> bool {
    exists|reason: &'static str|
        reason@ == text && diagnostic == #[trigger] diagnostic_for(
            state,
            StepOutcome::Failed { reason },
        )
}

/// Whether `e` is the reason for which installing the vectors in `state` is
/// refused: the table is installed already, or else its first empty slot.
pub open spec fn install_refusal(state: VectorState, e: VectorError) -> bool {
    if state.installed {
        e == VectorError::AlreadyInstalled
    } else {
        e matches VectorError::EmptySlot(cause) && state.first_empty(cause.slot())
    }
}

/// Giving a driver its interrupt service: its handler is registered and, if
/// that went through, its source is enabled.
pub open spec fn serve(irq: IrqState, descriptor: IrqHandlerDescriptor) -> (
    IrqState,
    Result<(), IrqError>,
) {
    let registered = irq.register(descriptor);
    match registered.1 {
        Ok(()) => registered.0.enable(descriptor.source),
        Err(e) => (irq, Err(e)),
    }
}

impl KernelState {
    /// The action the boot sequence is waiting for.
    pub open spec fn current(self) -> BootAction {
        self.boot.progress.current
    }

    /// The state after the boot sequence has taken the outcome of the
    /// current action.
    pub open spec fn advanced(self, done: bool) -> KernelState {
        KernelState {
            boot: BootState {
                progress: next_progress(self.boot.drivers.len() as int, self.boot.progress, done),
                ..self.boot
            },
            ..self
        }
    }

    /// The MMU state: active exactly when a table is live.
    pub open spec fn mmu_state(self) -> MmuState {
        if self.table is Some {
            MmuState::Active
        } else {
            MmuState::Inactive
        }
    }

    /// Whether the components are as far as the boot sequence says: the
    /// vectors are installed from the MMU step on, translation is on from
    /// the heap step on, and interrupts have been unmasked exactly when the
    /// main function has been entered. Whatever happens, a halt included,
    /// translation is never on without installed vectors.
    pub open spec fn coherent(self) -> bool {
        let current = self.current();
        &&& consistent(self.boot.drivers.len() as int, self.boot.progress)
        &&& self.irq.one_handler_per_source()
        &&& current is InstallVectors ==> !self.vectors.installed
        &&& 1 <= rank(current) <= 7 ==> self.vectors.installed
        &&& rank(current) <= 1 ==> self.table is None
        &&& 2 <= rank(current) <= 7 ==> self.table is Some
        &&& current is EnterMain <==> !(self.irq.mask is Initial)
        &&& self.table is Some ==> self.vectors.installed
    }

    /// Whether an activation with these arguments goes through.
    pub open spec fn activation_ok(
        self,
        regions: Seq<MemoryRegion>,
        required: Seq<AddressRange>,
        granule_supported: bool,
    ) -> bool {
        &&& valid_layout(regions)
        &&& init_outcome(
            self.mmu_state(),
            layout_entries(regions),
            required,
            granule_supported,
            Ok(()),
        )
    }

    /// Whether `text` is the reason for which an activation with these
    /// arguments is refused: the fault of the first offending region, or
    /// else the MMU controller's refusal.
    pub open spec fn activation_refusal(
        self,
        regions: Seq<MemoryRegion>,
        required: Seq<AddressRange>,
        granule_supported: bool,
        text: Seq<char>,
    ) -> bool {
        ||| exists|e: LayoutError| #[trigger] first_fault(regions, e) && text == e.fault.text()
        ||| valid_layout(regions) && exists|e: MmuError|
            #[trigger] init_outcome(
                self.mmu_state(),
                layout_entries(regions),
                required,
                granule_supported,
                Err(e),
            ) && text == e.text()
    }
}

/// In a coherent core nothing runs ahead of the boot order: an interrupt is
/// delivered only after the main function has been entered, and by then the
/// vectors are installed, translation is on and the lifecycle state is
/// published.
pub proof fn lemma_interrupts_wait_for_boot(state: KernelState, source: u32)
    requires
        state.coherent(),
        state.irq.delivers(source),
    ensures
        state.current() is EnterMain,
        state.boot.progress.lifecycle is SingleCoreMain,
        state.vectors.installed,
        state.table is Some,
        state.boot.progress.registered + state.boot.progress.skipped == state.boot.drivers.len(),
{
}

/// While the registry is open, a driver's interrupt service is refused only
/// because its source already has a handler.
pub proof fn lemma_service_refusal(irq: IrqState, descriptor: IrqHandlerDescriptor)
    requires
        irq.mask is Initial,
    ensures
        serve(irq, descriptor).1 == (if irq.registered(descriptor.source) {
            Err::<(), IrqError>(IrqError::DuplicateSource { source: descriptor.source })
        } else {
            Ok::<(), IrqError>(())
        }),
        !irq.registered(descriptor.source) ==> serve(irq, descriptor).0.handler_for(
            descriptor.source,
        ) == Some(descriptor) && serve(irq, descriptor).0.enabled(descriptor.source),
{
    if !irq.registered(descriptor.source) {
        let added = Registration { descriptor, enabled: false };
        let after = irq.registrations.push(added);
        assert(after.drop_last() =~= irq.registrations);
        assert(after.last() == added);
        assert(position(after, descriptor.source) == Some(irq.registrations.len() as int));
        lemma_position_after_enable(after, irq.registrations.len() as int, descriptor.source);
    }
}

/// The core: the boot sequence and the components it brings up.
pub struct Kernel {
    boot: BootSequence,
    vectors: ExceptionVectorTable,
    mmu: Mmu,
    irq: InterruptController,
}

impl View for Kernel {
    type V = KernelState;

    closed spec fn view(&self) -> KernelState {
        KernelState {
            boot: self.boot@,
            vectors: self.vectors@,
            table: self.mmu.live_table(),
            irq: self.irq@,
        }
    }
}

impl Kernel {
    /// A core after reset: the boot sequence before its first step, an
    /// empty vector table for `level`, translation off, nothing registered
    /// and interrupts masked.
    pub fn new(drivers: Vec<&'static str>, level: PrivilegeLevel) -> (kernel: Kernel)
        ensures
            kernel@.boot == (BootState { drivers: drivers@, progress: initial_progress() }),
            kernel@.vectors.level == level,
            !kernel@.vectors.installed,
            kernel@.vectors.slots.len() == SLOT_COUNT,
            forall|slot: int| 0 <= slot < SLOT_COUNT ==> (#[trigger] kernel@.vectors.slots[slot]) is None,
            kernel@.table is None,
            kernel@.irq == IrqState::initial(),
            kernel@.coherent(),
    {
        proof {
            lemma_initial_consistent(drivers@.len() as int);
        }
        Kernel {
            boot: BootSequence::new(drivers),
            vectors: ExceptionVectorTable::new(level),
            mmu: Mmu::new(),
            irq: InterruptController::new(),
        }
    }

    /// The action that has to be performed now.
    pub fn action(&self) -> (action: BootAction)
        ensures
            action == self@.current(),
    {
        self.boot.action()
    }

    /// The lifecycle state.
    pub fn lifecycle(&self) -> (state: CoreLifecycleState)
        ensures
            state == self@.boot.progress.lifecycle,
            state is SingleCoreMain <==> self@.current() is EnterMain,
            self@.coherent() && state is SingleCoreMain ==> self@.vectors.installed
                && self@.table is Some && !(self@.irq.mask is Initial),
    {
        self.boot.lifecycle()
    }

    /// The boot sequence, to read.
    pub fn boot(&self) -> (boot: &BootSequence)
        ensures
            boot@ == self@.boot,
    {
        &self.boot
    }

    /// The exception vectors, to read.
    pub fn vectors(&self) -> (vectors: &ExceptionVectorTable)
        ensures
            vectors@ == self@.vectors,
    {
        &self.vectors
    }

    /// The MMU controller, to read.
    pub fn mmu(&self) -> (mmu: &Mmu)
        ensures
            mmu.live_table() == self@.table,
    {
        &self.mmu
    }

    /// The interrupt controller, to read.
    pub fn irq(&self) -> (irq: &InterruptController)
        ensures
            irq@ == self@.irq,
    {
        &self.irq
    }

    /// Puts a handler into a vector slot. Allowed only while the boot
    /// sequence is waiting for the vectors to be installed.
    pub fn set_vector(&mut self, cause: TrapCause, handler: Handler) -> (result: Result<
        (),
        StepError,
    >)
        ensures
            !(old(self)@.current() is InstallVectors) ==> result == Err::<(), StepError>(
                StepError::OutOfOrder { expected: old(self)@.current() },
            ) && final(self)@ == old(self)@,
            old(self)@.current() is InstallVectors && old(self)@.vectors.installed ==> result
                == Err::<(), StepError>(StepError::Vector(VectorError::AlreadyInstalled))
                && final(self)@ == old(self)@,
            old(self)@.current() is InstallVectors && !old(self)@.vectors.installed ==> result
                is Ok && final(self)@ == (KernelState {
                vectors: VectorState {
                    slots: old(self)@.vectors.slots.update(cause.slot(), Some(handler)),
                    ..old(self)@.vectors
                },
                ..old(self)@
            }),
            old(self)@.coherent() ==> final(self)@.coherent(),
    {
        match self.boot.action() {
            BootAction::InstallVectors => match self.vectors.set_handler(cause, handler) {
                Ok(()) => Ok(()),
                Err(e) => Err(StepError::Vector(e)),
            },
            other => Err(StepError::OutOfOrder { expected: other }),
        }
    }

    /// Installs the exception vectors, the first step of the boot.
    ///
    /// Refused, with nothing changed, unless that is the step the boot
    /// sequence is waiting for. Otherwise the vector table is installed if
    /// every slot holds a handler, and the boot sequence moves on; if a slot
    /// is empty the boot halts and the halt is reported.
    pub fn install_vectors(&mut self) -> (result: Result<Option<Diagnostic>, StepError>)
        ensures
            !(old(self)@.current() is InstallVectors) ==> result == Err::<
                Option<Diagnostic>,
                StepError,
            >(StepError::OutOfOrder { expected: old(self)@.current() }) && final(self)@ == old(self)@,
            old(self)@.current() is InstallVectors ==> result is Ok,
            old(self)@.current() is InstallVectors && !old(self)@.vectors.installed && old(self)@.vectors.complete() ==> result == Ok::<Option<Diagnostic>, StepError>(None)
                && final(self)@ == (KernelState {
                vectors: VectorState { installed: true, ..old(self)@.vectors },
                ..old(self)@
            }).advanced(true),
            old(self)@.current() is InstallVectors && !(!old(self)@.vectors.installed && old(self)@.vectors.complete()) ==> final(self)@ == old(self)@.advanced(false)
                && exists|e: VectorError|
                #[trigger] install_refusal(old(self)@.vectors, e) && reports(
                    result->Ok_0,
                    old(self)@.boot,
                    e.text(),
                ),
            old(self)@.coherent() ==> final(self)@.coherent(),
    {
        let ghost before = self@;
        match self.boot.action() {
            BootAction::InstallVectors => {},
            other => {
                return Err(StepError::OutOfOrder { expected: other });
            },
        }
        match self.vectors.handling_init() {
            Ok(()) => {
                let diagnostic = self.boot.advance(StepOutcome::Done);
                Ok(diagnostic)
            },
            Err(e) => {
                let reason = e.message();
                let diagnostic = self.boot.advance(StepOutcome::Failed { reason });
                proof {
                    assert(diagnostic == diagnostic_for(
                        before.boot,
                        StepOutcome::Failed { reason },
                    ));
                    assert(install_refusal(before.vectors, e));
                }
                Ok(diagnostic)
            },
        }
    }

    /// Builds the translation table for `regions` and turns the MMU on, the
    /// second step of the boot.
    ///
    /// Refused, with nothing changed, unless that is the step the boot
    /// sequence is waiting for. Otherwise the table is built and handed to
    /// the MMU controller. If both succeed, translation is on with exactly
    /// the entries of `regions` and the boot sequence moves on. If the
    /// layout is not acceptable or the controller refuses, nothing is
    /// activated, the boot halts, and the halt is reported with the reason.
    pub fn activate_mmu(
        &mut self,
        regions: &Vec<MemoryRegion>,
        required: &Vec<AddressRange>,
        granule_supported: bool,
    ) -> (result: Result<Option<Diagnostic>, StepError>)
        ensures
            !(old(self)@.current() is ActivateMmu) ==> result == Err::<
                Option<Diagnostic>,
                StepError,
            >(StepError::OutOfOrder { expected: old(self)@.current() }) && final(self)@ == old(self)@,
            old(self)@.current() is ActivateMmu ==> result is Ok,
            old(self)@.current() is ActivateMmu && old(self)@.activation_ok(
                regions@,
                required@,
                granule_supported,
            ) ==> result == Ok::<Option<Diagnostic>, StepError>(None) && final(self)@ == (
            KernelState { table: Some(layout_entries(regions@)), ..old(self)@ }).advanced(true),
            old(self)@.current() is ActivateMmu && !old(self)@.activation_ok(
                regions@,
                required@,
                granule_supported,
            ) ==> final(self)@ == old(self)@.advanced(false) && exists|text: Seq<char>|
                #[trigger] old(self)@.activation_refusal(
                    regions@,
                    required@,
                    granule_supported,
                    text,
                ) && reports(result->Ok_0, old(self)@.boot, text),
            old(self)@.coherent() ==> final(self)@.coherent(),
    {
        let ghost before = self@;
        match self.boot.action() {
            BootAction::ActivateMmu => {},
            other => {
                return Err(StepError::OutOfOrder { expected: other });
            },
        }
        match build(regions) {
            Err(e) => {
                let reason = e.fault.message();
                let diagnostic = self.boot.advance(StepOutcome::Failed { reason });
                proof {
                    assert(diagnostic == diagnostic_for(
                        before.boot,
                        StepOutcome::Failed { reason },
                    ));
                    assert(first_fault(regions@, e));
                    assert(before.activation_refusal(
                        regions@,
                        required@,
                        granule_supported,
                        e.fault.text(),
                    ));
                }
                Ok(diagnostic)
            },
            Ok(table) => match self.mmu.init(table, required, granule_supported) {
                Ok(()) => {
                    let diagnostic = self.boot.advance(StepOutcome::Done);
                    Ok(diagnostic)
                },
                Err(e) => {
                    let reason = e.message();
                    let diagnostic = self.boot.advance(StepOutcome::Failed { reason });
                    proof {
                        assert(diagnostic == diagnostic_for(
                            before.boot,
                            StepOutcome::Failed { reason },
                        ));
                        assert(init_outcome(
                            before.mmu_state(),
                            layout_entries(regions@),
                            required@,
                            granule_supported,
                            Err(e),
                        ));
                        assert(before.activation_refusal(
                            regions@,
                            required@,
                            granule_supported,
                            e.text(),
                        ));
                    }
                    Ok(diagnostic)
                },
            },
        }
    }

    /// Takes the outcome of a step that is performed outside the kernel:
    /// the heap, a driver's initialisation, or the end of driver bring-up.
    ///
    /// Refused, with nothing changed, unless the boot sequence is waiting
    /// for such a step. Otherwise the boot sequence moves on or halts as
    /// the outcome demands, and what it reports is handed back.
    pub fn report(&mut self, outcome: StepOutcome) -> (result: Result<
        Option<Diagnostic>,
        StepError,
    >)
        ensures
            !external(old(self)@.current()) ==> result == Err::<Option<Diagnostic>, StepError>(
                StepError::OutOfOrder { expected: old(self)@.current() },
            ) && final(self)@ == old(self)@,
            external(old(self)@.current()) ==> result == Ok::<Option<Diagnostic>, StepError>(
                diagnostic_for(old(self)@.boot, outcome),
            ) && final(self)@ == old(self)@.advanced(outcome is Done),
            old(self)@.coherent() ==> final(self)@.coherent(),
    {
        match self.boot.action() {
            BootAction::InitHeap { start: _, size: _ } => {},
            BootAction::InitDriver { index: _ } => {},
            BootAction::CompleteDriverInit => {},
            other => {
                return Err(StepError::OutOfOrder { expected: other });
            },
        }
        let diagnostic = self.boot.advance(outcome);
        Ok(diagnostic)
    }

    /// Gives the driver whose turn it is its interrupt service.
    ///
    /// Refused, with nothing changed, unless the boot sequence is waiting
    /// for a handler registration. A driver without a handler is passed
    /// over. Otherwise the handler is registered and its source enabled. If
    /// the registry refuses, it stays as it was, a warning that names the
    /// driver is reported, and the boot goes on all the same.
    pub fn register_irq_handler(&mut self, handler: Option<IrqHandlerDescriptor>) -> (result:
        Result<Option<Diagnostic>, StepError>)
        ensures
            !(old(self)@.current() is RegisterIrqHandler) ==> result == Err::<
                Option<Diagnostic>,
                StepError,
            >(StepError::OutOfOrder { expected: old(self)@.current() }) && final(self)@ == old(self)@,
            old(self)@.current() is RegisterIrqHandler ==> result is Ok,
            old(self)@.current() is RegisterIrqHandler && handler is None ==> result == Ok::<
                Option<Diagnostic>,
                StepError,
            >(None) && final(self)@ == old(self)@.advanced(true),
            old(self)@.current() is RegisterIrqHandler && handler is Some ==> ({
                let served = serve(old(self)@.irq, handler->0);
                &&& final(self)@ == (KernelState { irq: served.0, ..old(self)@ }).advanced(
                    served.1 is Ok,
                )
                &&& served.1 is Ok ==> result == Ok::<Option<Diagnostic>, StepError>(None)
                &&& served.1 matches Err(e) ==> reports(result->Ok_0, old(self)@.boot, e.text())
            }),
            old(self)@.coherent() ==> final(self)@.coherent(),
    {
        let ghost before = self@;
        match self.boot.action() {
            BootAction::RegisterIrqHandler { index: _ } => {},
            other => {
                return Err(StepError::OutOfOrder { expected: other });
            },
        }
        let attempt = match handler {
            None => Ok(()),
            Some(descriptor) => {
                proof {
                    if before.coherent() {
                        lemma_one_handler_per_source(
                            before.irq,
                            descriptor,
                            descriptor.source,
                            true,
                        );
                        lemma_one_handler_per_source(
                            before.irq.register(descriptor).0,
                            descriptor,
                            descriptor.source,
                            true,
                        );
                    }
                }
                match self.irq.register(descriptor) {
                    Ok(()) => self.irq.enable(descriptor.source),
                    Err(e) => Err(e),
                }
            },
        };
        match attempt {
            Ok(()) => {
                let diagnostic = self.boot.advance(StepOutcome::Done);
                Ok(diagnostic)
            },
            Err(e) => {
                let reason = e.message();
                let diagnostic = self.boot.advance(StepOutcome::Failed { reason });
                assert(diagnostic == diagnostic_for(before.boot, StepOutcome::Failed { reason }));
                Ok(diagnostic)
            },
        }
    }

    /// Unmasks interrupts, the last step of the boot.
    ///
    /// Refused, with nothing changed, unless that is the step the boot
    /// sequence is waiting for. Otherwise the core is unmasked and the boot
    /// sequence hands off to the main function with the lifecycle state
    /// published. Should the vectors not be installed, the core stays
    /// masked and the boot halts.
    pub fn unmask(&mut self) -> (result: Result<Option<Diagnostic>, StepError>)
        ensures
            !(old(self)@.current() is UnmaskInterrupts) ==> result == Err::<
                Option<Diagnostic>,
                StepError,
            >(StepError::OutOfOrder { expected: old(self)@.current() }) && final(self)@ == old(self)@,
            old(self)@.current() is UnmaskInterrupts ==> result is Ok,
            old(self)@.current() is UnmaskInterrupts && old(self)@.vectors.installed ==> result
                == Ok::<Option<Diagnostic>, StepError>(None) && final(self)@ == (KernelState {
                irq: old(self)@.irq.unmask(true).0,
                ..old(self)@
            }).advanced(true),
            old(self)@.current() is UnmaskInterrupts && !old(self)@.vectors.installed ==> final(self)@ == old(self)@.advanced(false) && reports(
                result->Ok_0,
                old(self)@.boot,
                IrqError::VectorsNotInstalled.text(),
            ),
            old(self)@.coherent() ==> final(self)@.coherent(),
            old(self)@.coherent() && old(self)@.current() is UnmaskInterrupts ==> result == Ok::<
                Option<Diagnostic>,
                StepError,
            >(None) && final(self)@.boot.progress.lifecycle is SingleCoreMain,
    {
        let ghost before = self@;
        match self.boot.action() {
            BootAction::UnmaskInterrupts => {},
            other => {
                return Err(StepError::OutOfOrder { expected: other });
            },
        }
        match self.irq.local_irq_unmask(&self.vectors) {
            Ok(()) => {
                let diagnostic = self.boot.advance(StepOutcome::Done);
                Ok(diagnostic)
            },
            Err(e) => {
                let reason = e.message();
                let diagnostic = self.boot.advance(StepOutcome::Failed { reason });
                assert(diagnostic == diagnostic_for(before.boot, StepOutcome::Failed { reason }));
                Ok(diagnostic)
            },
        }
    }

    /// Classifies a trap through the vector table.
    pub fn classify(&self, cause: TrapCause, syndrome: u64, fault_address: u64) -> (action:
        TrapAction)
        ensures
            action == self@.vectors.action(cause, syndrome, fault_address),
            self@.vectors.installed ==> !(action is Halt),
    {
        self.vectors.handle(cause, syndrome, fault_address)
    }

    /// Looks up the handler for a pending interrupt and masks the core for
    /// as long as the handler runs. A source without a handler is reported
    /// as fatal and the mask is left alone.
    pub fn enter_handler(&mut self, source: u32) -> (result: Result<
        IrqHandlerDescriptor,
        IrqError,
    >)
        ensures
            result == old(self)@.irq.dispatch(source),
            final(self)@ == (KernelState {
                irq: if result is Ok {
                    old(self)@.irq.mask_all()
                } else {
                    old(self)@.irq
                },
                ..old(self)@
            }),
            old(self)@.coherent() ==> final(self)@.coherent(),
    {
        match self.irq.dispatch(source) {
            Ok(descriptor) => {
                self.irq.local_irq_mask();
                Ok(descriptor)
            },
            Err(e) => Err(e),
        }
    }

    /// Unmasks the core again when a handler has run to completion.
    /// Refused, with nothing changed, before the main function has been
    /// entered: until then the core stays masked.
    pub fn leave_handler(&mut self) -> (result: Result<(), StepError>)
        ensures
            !(old(self)@.current() is EnterMain) ==> result == Err::<(), StepError>(
                StepError::OutOfOrder { expected: old(self)@.current() },
            ) && final(self)@ == old(self)@,
            old(self)@.current() is EnterMain ==> ({
                let unmasked = old(self)@.irq.unmask(old(self)@.vectors.installed);
                &&& final(self)@ == (KernelState { irq: unmasked.0, ..old(self)@ })
                &&& result == (match unmasked.1 {
                    Ok(()) => Ok::<(), StepError>(()),
                    Err(e) => Err::<(), StepError>(StepError::Irq(e)),
                })
            }),
            old(self)@.coherent() && old(self)@.current() is EnterMain ==> result is Ok,
            old(self)@.coherent() ==> final(self)@.coherent(),
    {
        match self.boot.action() {
            BootAction::EnterMain => {},
            other => {
                return Err(StepError::OutOfOrder { expected: other });
            },
        }
        match self.irq.local_irq_unmask(&self.vectors) {
            Ok(()) => Ok(()),
            Err(e) => Err(StepError::Irq(e)),
        }
    }
}

} // verus!
