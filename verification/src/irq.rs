//! Interrupt registration and masking.
//!
//! The controller keeps one handler per interrupt source and the core's mask
//! state. Handlers are registered while interrupts have never been unmasked;
//! once they are live the registry is read-only. Unmasking is the single
//! gate: nothing is delivered while the core is masked, whatever has been
//! enabled.

use vstd::prelude::*;
use crate::exception::{ExceptionVectorTable, Handler};

verus! {

/// The handler registered for one interrupt source.
#[derive(Clone, Copy, Debug, PartialEq, Eq)]
pub struct IrqHandlerDescriptor {
    /// The interrupt source the handler serves.
    pub source: u32,
    /// The token of the handler to run.
    pub handler: Handler,
    /// Name of the driver that registered it.
    pub name: &'static str,
}

/// One line of the registry: a descriptor and whether delivery of its source
/// has been enabled.
#[derive(Clone, Copy, Debug, PartialEq, Eq)]
pub struct Registration {
    pub descriptor: IrqHandlerDescriptor,
    pub enabled: bool,
}

/// Why an interrupt operation was refused, or why a dispatch is fatal.
#[derive(Clone, Copy, Debug, PartialEq, Eq, Structural)]
pub enum IrqError {
    /// Interrupts have been live; the registry no longer changes.
    RegistrationClosed,
    /// The source already has a handler.
    DuplicateSource { source: u32 },
    /// The source has no handler.
    NotRegistered { source: u32 },
    /// The exception vectors are not installed yet.
    VectorsNotInstalled,
    /// An interrupt arrived from a source that has no handler.
    UnexpectedInterrupt { source: u32 },
}

/// How bad an error is: it either stops the core or is logged and passed
/// over.
#[derive(Clone, Copy, Debug, PartialEq, Eq, Structural)]
pub enum Severity {
    /// The core must halt.
    Fatal,
    /// The condition is logged; the affected device goes on without
    /// interrupt service.
    Warning,
}

impl IrqError {
    /// The class of the error. An interrupt without a handler and a refused
    /// unmask stop the core; a failed registration or enabling only costs a
    /// device its interrupt service.
    pub open spec fn class(self) -> Severity {
        match self {
            IrqError::UnexpectedInterrupt { .. } => Severity::Fatal,
            IrqError::VectorsNotInstalled => Severity::Fatal,
            _ => Severity::Warning,
        }
    }

    /// The class of the error.
    pub fn severity(&self) -> (severity: Severity)
        ensures
            severity == self.class(),
    {
        match self {
            IrqError::UnexpectedInterrupt { source: _ } => Severity::Fatal,
            IrqError::VectorsNotInstalled => Severity::Fatal,
            _ => Severity::Warning,
        }
    }

    /// What the error is called in a report.
    pub open spec fn text(self) -> Seq<char> {
        match self {
            IrqError::RegistrationClosed => "interrupts are live, the registry is closed"@,
            IrqError::DuplicateSource { source } => "interrupt source already has a handler"@,
            IrqError::NotRegistered { source } => "interrupt source has no handler"@,
            IrqError::VectorsNotInstalled => "exception vectors are not installed"@,
            IrqError::UnexpectedInterrupt { source } => "unexpected interrupt, no handler registered"@,
        }
    }

    /// What the error is called in a report.
    pub fn message(&self) -> (message: &'static str)
        ensures
            message@ == self.text(),
    {
        match self {
            IrqError::RegistrationClosed => "interrupts are live, the registry is closed",
            IrqError::DuplicateSource { source: _ } => "interrupt source already has a handler",
            IrqError::NotRegistered { source: _ } => "interrupt source has no handler",
            IrqError::VectorsNotInstalled => "exception vectors are not installed",
            IrqError::UnexpectedInterrupt { source: _ } => "unexpected interrupt, no handler registered",
        }
    }
}

/// Whether the core accepts interrupts, and whether it ever has.
#[derive(Clone, Copy, Debug, PartialEq, Eq, Structural)]
pub enum MaskState {
    /// Masked since reset. Handlers can be registered.
    Initial,
    /// Interrupts are accepted.
    Unmasked,
    /// Masked again after interrupts have been live.
    Masked,
}

/// Position of the first registration for `source`, if there is one.
pub open spec fn position(registrations: Seq<Registration>, source: u32) -> Option<int>
    decreases registrations.len(),
{
    if registrations.len() == 0 {
        None
    } else {
        match position(registrations.drop_last(), source) {
            Some(i) => Some(i),
            None => if registrations.last().descriptor.source == source {
                Some(registrations.len() - 1)
            } else {
                None
            },
        }
    }
}

/// The state of an interrupt controller, as contracts see it.
pub struct IrqState {
    /// The registry, in order of registration.
    pub registrations: Seq<Registration>,
    pub mask: MaskState,
}

impl IrqState {
    /// The state after reset: nothing registered, masked.
    pub open spec fn initial() -> IrqState {
        IrqState { registrations: Seq::empty(), mask: MaskState::Initial }
    }

    /// Whether no source has more than one registration.
    pub open spec fn one_handler_per_source(self) -> bool {
        forall|i: int, j: int|
            0 <= i < j < self.registrations.len() ==> (
            #[trigger] self.registrations[i]).descriptor.source != (
            #[trigger] self.registrations[j]).descriptor.source
    }

    /// Whether the core refuses every interrupt.
    pub open spec fn masked(self) -> bool {
        !(self.mask is Unmasked)
    }

    /// Whether `source` has a handler.
    pub open spec fn registered(self, source: u32) -> bool {
        position(self.registrations, source) is Some
    }

    /// The handler that serves `source`, if it has one.
    pub open spec fn handler_for(self, source: u32) -> Option<IrqHandlerDescriptor> {
        match position(self.registrations, source) {
            Some(i) => Some(self.registrations[i].descriptor),
            None => None,
        }
    }

    /// Whether delivery of `source` has been enabled.
    pub open spec fn enabled(self, source: u32) -> bool {
        match position(self.registrations, source) {
            Some(i) => self.registrations[i].enabled,
            None => false,
        }
    }

    /// Whether an interrupt from `source` reaches the core: the core is
    /// unmasked and the source is enabled.
    pub open spec fn delivers(self, source: u32) -> bool {
        !self.masked() && self.enabled(source)
    }

    /// Registering `descriptor`: refused once interrupts have been live, and
    /// refused for a source that has a handler; otherwise the descriptor is
    /// added, not yet enabled.
    pub open spec fn register(self, descriptor: IrqHandlerDescriptor) -> (
        IrqState,
        Result<(), IrqError>,
    ) {
        if !(self.mask is Initial) {
            (self, Err(IrqError::RegistrationClosed))
        } else if self.registered(descriptor.source) {
            (self, Err(IrqError::DuplicateSource { source: descriptor.source }))
        } else {
            (
                IrqState {
                    registrations: self.registrations.push(
                        Registration { descriptor, enabled: false },
                    ),
                    ..self
                },
                Ok(()),
            )
        }
    }

    /// Enabling `source`: refused unless it has a handler.
    pub open spec fn enable(self, source: u32) -> (IrqState, Result<(), IrqError>) {
        match position(self.registrations, source) {
            Some(i) => (
                IrqState {
                    registrations: self.registrations.update(
                        i,
                        Registration { enabled: true, ..self.registrations[i] },
                    ),
                    ..self
                },
                Ok(()),
            ),
            None => (self, Err(IrqError::NotRegistered { source })),
        }
    }

    /// Unmasking: refused until the exception vectors are installed.
    pub open spec fn unmask(self, vectors_installed: bool) -> (IrqState, Result<(), IrqError>) {
        if vectors_installed {
            (IrqState { mask: MaskState::Unmasked, ..self }, Ok(()))
        } else {
            (self, Err(IrqError::VectorsNotInstalled))
        }
    }

    /// Masking: an unmasked core becomes masked; a masked one stays as it is.
    pub open spec fn mask_all(self) -> IrqState {
        if self.mask is Unmasked {
            IrqState { mask: MaskState::Masked, ..self }
        } else {
            self
        }
    }

    /// Dispatching `source`: its handler, or the fatal report that there is
    /// none.
    pub open spec fn dispatch(self, source: u32) -> Result<IrqHandlerDescriptor, IrqError> {
        match self.handler_for(source) {
            Some(descriptor) => Ok(descriptor),
            None => Err(IrqError::UnexpectedInterrupt { source }),
        }
    }
}

/// The interrupt registration and mask controller of one core.
pub struct InterruptController {
    registrations: Vec<Registration>,
    mask: MaskState,
}

impl View for InterruptController {
    type V = IrqState;

    closed spec fn view(&self) -> IrqState {
        IrqState { registrations: self.registrations@, mask: self.mask }
    }
}

impl InterruptController {
    /// A controller in the state after reset.
    pub fn new() -> (controller: InterruptController)
        ensures
            controller@ == IrqState::initial(),
    {
        InterruptController { registrations: Vec::new(), mask: MaskState::Initial }
    }

    /// Position of the first registration for `source`.
    fn find(&self, source: u32) -> (found: Option<usize>)
        ensures
            match found {
                Some(i) => position(self@.registrations, source) == Some(i as int) && i
                    < self@.registrations.len(),
                None => position(self@.registrations, source) is None,
            },
    {
        let n: usize = self.registrations.len();
        let mut k: usize = 0;
        assert(self.registrations@.take(0) =~= Seq::empty());
        while k < n
            invariant
                n == self.registrations@.len(),
                k <= n,
                position(self.registrations@.take(k as int), source) is None,
            decreases n - k,
        {
            proof {
                let upto = self.registrations@.take(k + 1);
                assert(upto.drop_last() =~= self.registrations@.take(k as int));
                assert(upto.last() == self.registrations@[k as int]);
            }
            if self.registrations[k].descriptor.source == source {
                proof {
                    lemma_position_prefix(self.registrations@, k + 1, source);
                }
                return Some(k);
            }
            k += 1;
        }
        assert(self.registrations@.take(n as int) =~= self.registrations@);
        None
    }

    /// Registers a handler for its source.
    ///
    /// Fails after interrupts have been unmasked, and fails for a source
    /// that already has a handler; the registry is then unchanged, so the
    /// earlier handler stays in charge.
    pub fn register(&mut self, descriptor: IrqHandlerDescriptor) -> (result: Result<(), IrqError>)
        ensures
            (final(self)@, result) == old(self)@.register(descriptor),
    {
        match self.mask {
            MaskState::Initial => {},
            _ => {
                return Err(IrqError::RegistrationClosed);
            },
        }
        match self.find(descriptor.source) {
            Some(_) => Err(IrqError::DuplicateSource { source: descriptor.source }),
            None => {
                self.registrations.push(Registration { descriptor, enabled: false });
                Ok(())
            },
        }
    }

    /// Enables delivery of a source that has a handler. Nothing is delivered
    /// before the core is unmasked.
    pub fn enable(&mut self, source: u32) -> (result: Result<(), IrqError>)
        ensures
            (final(self)@, result) == old(self)@.enable(source),
    {
        match self.find(source) {
            None => Err(IrqError::NotRegistered { source }),
            Some(i) => {
                let registration = self.registrations[i];
                self.registrations.set(i, Registration { enabled: true, ..registration });
                Ok(())
            },
        }
    }

    /// Lets the core accept interrupts. Refused, with nothing changed, until
    /// the exception vectors are installed.
    pub fn local_irq_unmask(&mut self, vectors: &ExceptionVectorTable) -> (result: Result<
        (),
        IrqError,
    >)
        ensures
            (final(self)@, result) == old(self)@.unmask(vectors@.installed),
    {
        if vectors.is_installed() {
            self.mask = MaskState::Unmasked;
            Ok(())
        } else {
            Err(IrqError::VectorsNotInstalled)
        }
    }

    /// Makes the core refuse every interrupt.
    pub fn local_irq_mask(&mut self)
        ensures
            final(self)@ == old(self)@.mask_all(),
    {
        match self.mask {
            MaskState::Unmasked => {
                self.mask = MaskState::Masked;
            },
            _ => {},
        }
    }

    /// The mask state.
    pub fn mask_state(&self) -> (mask: MaskState)
        ensures
            mask == self@.mask,
    {
        self.mask
    }

    /// Tells whether an interrupt from `source` reaches the core.
    pub fn delivers(&self, source: u32) -> (delivered: bool)
        ensures
            delivered == self@.delivers(source),
    {
        match self.mask {
            MaskState::Unmasked => match self.find(source) {
                Some(i) => self.registrations[i].enabled,
                None => false,
            },
            _ => false,
        }
    }

    /// Looks up the handler of an interrupt source. A source without a
    /// handler is a fatal condition and is reported as such.
    pub fn dispatch(&self, source: u32) -> (result: Result<IrqHandlerDescriptor, IrqError>)
        ensures
            result == self@.dispatch(source),
    {
        match self.find(source) {
            Some(i) => Ok(self.registrations[i].descriptor),
            None => Err(IrqError::UnexpectedInterrupt { source }),
        }
    }

    /// The registry, in order of registration. Reads the controller and
    /// changes nothing.
    pub fn print_handlers(&self) -> (listing: Vec<Registration>)
        ensures
            listing@ == self@.registrations,
    {
        let n: usize = self.registrations.len();
        let mut listing: Vec<Registration> = Vec::new();
        let mut i: usize = 0;
        while i < n
            invariant
                n == self.registrations@.len(),
                i <= n,
                listing@ == self.registrations@.take(i as int),
            decreases n - i,
        {
            listing.push(self.registrations[i]);
            assert(listing@ =~= self.registrations@.take(i + 1));
            i += 1;
        }
        assert(listing@ =~= self.registrations@);
        listing
    }
}

/// Where a prefix of the registry finds a source, the whole registry finds
/// it too.
pub proof fn lemma_position_prefix(registrations: Seq<Registration>, k: int, source: u32)
    requires
        0 <= k <= registrations.len(),
        position(registrations.take(k), source) is Some,
    ensures
        position(registrations, source) == position(registrations.take(k), source),
    decreases registrations.len() - k,
{
    if k == registrations.len() {
        assert(registrations.take(k) =~= registrations);
    } else {
        let upto = registrations.take(k + 1);
        assert(upto.drop_last() =~= registrations.take(k));
        lemma_position_prefix(registrations, k + 1, source);
    }
}

/// A position that is found lies in the registry and holds the source.
pub proof fn lemma_position_holds(registrations: Seq<Registration>, source: u32)
    ensures
        position(registrations, source) matches Some(i) ==> 0 <= i < registrations.len()
            && registrations[i].descriptor.source == source,
    decreases registrations.len(),
{
    if registrations.len() > 0 {
        lemma_position_holds(registrations.drop_last(), source);
    }
}

/// A source that is not found has no registration anywhere in the registry.
pub proof fn lemma_position_none(registrations: Seq<Registration>, source: u32)
    requires
        position(registrations, source) is None,
    ensures
        forall|i: int|
            0 <= i < registrations.len() ==> (#[trigger] registrations[i]).descriptor.source
                != source,
    decreases registrations.len(),
{
    if registrations.len() > 0 {
        let front = registrations.drop_last();
        lemma_position_none(front, source);
        assert forall|i: int| 0 <= i < registrations.len() implies (
        #[trigger] registrations[i]).descriptor.source != source by {
            if i < front.len() {
                assert(registrations[i] == front[i]);
            }
        }
    }
}

/// The registry never holds two handlers for one source: it starts without
/// any, and no operation adds a second one.
pub proof fn lemma_one_handler_per_source(
    state: IrqState,
    descriptor: IrqHandlerDescriptor,
    source: u32,
    vectors_installed: bool,
)
    requires
        state.one_handler_per_source(),
    ensures
        IrqState::initial().one_handler_per_source(),
        state.register(descriptor).0.one_handler_per_source(),
        state.enable(source).0.one_handler_per_source(),
        state.unmask(vectors_installed).0.one_handler_per_source(),
        state.mask_all().one_handler_per_source(),
{
    if position(state.registrations, descriptor.source) is None {
        lemma_position_none(state.registrations, descriptor.source);
    }
    lemma_position_holds(state.registrations, source);
}

/// The first registration for a source stays in charge: once a handler is
/// registered, a second registration for the same source fails as a
/// duplicate, changes nothing, and dispatch still answers with the first
/// handler.
pub proof fn lemma_first_registration_wins(
    state: IrqState,
    first: IrqHandlerDescriptor,
    second: IrqHandlerDescriptor,
)
    requires
        first.source == second.source,
        state.register(first).1 is Ok,
    ensures
        state.register(first).0.register(second) == (
            state.register(first).0,
            Err::<(), IrqError>(IrqError::DuplicateSource { source: first.source }),
        ),
        state.register(first).0.dispatch(first.source) == Ok::<IrqHandlerDescriptor, IrqError>(
            first,
        ),
{
    let after = state.register(first).0;
    let added = Registration { descriptor: first, enabled: false };
    assert(after.registrations == state.registrations.push(added));
    assert(after.registrations.drop_last() =~= state.registrations);
    assert(after.registrations.last() == added);
    assert(position(after.registrations, first.source) == Some(state.registrations.len() as int));
}

/// A dispatch for a source without a handler is always reported as fatal,
/// whatever else the controller holds.
pub proof fn lemma_unregistered_dispatch_is_fatal(state: IrqState, source: u32)
    requires
        !state.registered(source),
    ensures
        state.dispatch(source) == Err::<IrqHandlerDescriptor, IrqError>(
            IrqError::UnexpectedInterrupt { source },
        ),
{
}

/// Until the vectors are installed the core stays masked: an unmask is
/// refused, and no source is delivered, whatever was registered or enabled
/// before.
pub proof fn lemma_no_delivery_before_vectors(state: IrqState, source: u32)
    requires
        state.masked(),
    ensures
        state.unmask(false) == (state, Err::<(), IrqError>(IrqError::VectorsNotInstalled)),
        !state.unmask(false).0.delivers(source),
        !state.enable(source).0.delivers(source),
{
}

/// Registration and enabling never unmask the core, and never change what
/// an already registered source dispatches to.
pub proof fn lemma_registry_changes_keep_handlers(
    state: IrqState,
    descriptor: IrqHandlerDescriptor,
    source: u32,
)
    requires
        state.registered(source),
    ensures
        state.register(descriptor).0.mask == state.mask,
        state.enable(descriptor.source).0.mask == state.mask,
        state.register(descriptor).0.dispatch(source) == state.dispatch(source),
        state.enable(descriptor.source).0.dispatch(source) == state.dispatch(source),
{
    lemma_position_holds(state.registrations, source);
    let pushed = state.registrations.push(Registration { descriptor, enabled: false });
    assert(pushed.drop_last() =~= state.registrations);
    match position(state.registrations, descriptor.source) {
        Some(i) => {
            lemma_position_holds(state.registrations, descriptor.source);
            lemma_position_after_enable(state.registrations, i, source);
        },
        None => {},
    }
}

/// Setting the enabled flag of a registration moves no source.
pub proof fn lemma_position_after_enable(registrations: Seq<Registration>, i: int, source: u32)
    requires
        0 <= i < registrations.len(),
    ensures
        position(
            registrations.update(i, Registration { enabled: true, ..registrations[i] }),
            source,
        ) == position(registrations, source),
    decreases registrations.len(),
{
    let changed = registrations.update(i, Registration { enabled: true, ..registrations[i] });
    if i == registrations.len() - 1 {
        assert(changed.drop_last() =~= registrations.drop_last());
    } else {
        assert(changed.drop_last() =~= registrations.drop_last().update(
            i,
            Registration { enabled: true, ..registrations.drop_last()[i] },
        ));
        lemma_position_after_enable(registrations.drop_last(), i, source);
    }
}

} // verus!
