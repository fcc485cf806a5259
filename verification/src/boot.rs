//! The boot sequence: which step comes next, and what a failed step means.
//!
//! The sequence names one action at a time. Whoever drives the boot performs
//! the action and reports how it went; the sequence answers with the next
//! action and, where something went wrong, with a diagnostic. The order is
//! fixed: exception vectors, MMU, heap, every driver's initialisation, every
//! driver's interrupt handler, unmasking, and the hand-off to the main
//! function. Only a failed interrupt-handler registration is survivable;
//! every other failure halts the boot for good.

use vstd::prelude::*;
use crate::irq::Severity;

verus! {

/// First address of the kernel heap.
pub const HEAP_START: u64 = 0x0020_0000;

/// Size of the kernel heap in bytes.
pub const HEAP_SIZE: u64 = 0x0040_0000;

/// How far the core has come. It only ever moves forward.
#[derive(Clone, Copy, Debug, PartialEq, Eq, Structural)]
pub enum CoreLifecycleState {
    /// The boot sequence is still running.
    PreInit,
    /// The boot sequence is complete; a single core runs the main function.
    SingleCoreMain,
}

/// What has to be done next.
#[derive(Clone, Copy, Debug, PartialEq, Eq, Structural)]
pub enum BootAction {
    /// Install the exception vectors.
    InstallVectors,
    /// Build the translation table and turn the MMU on.
    ActivateMmu,
    /// Hand the heap range to the allocator.
    InitHeap { start: u64, size: u64 },
    /// Initialise the driver at `index`.
    InitDriver { index: usize },
    /// Finish driver bring-up once every driver is initialised.
    CompleteDriverInit,
    /// Let the driver at `index` register and enable its interrupt handler.
    RegisterIrqHandler { index: usize },
    /// Unmask interrupts on the boot core.
    UnmaskInterrupts,
    /// Enter the main function. Nothing follows.
    EnterMain,
    /// Stop the core. Nothing follows.
    Halt,
}

/// How the action that was asked for went.
#[derive(Clone, Copy, Debug, PartialEq, Eq)]
pub enum StepOutcome {
    Done,
    Failed { reason: &'static str },
}

/// Why the boot was halted.
#[derive(Clone, Copy, Debug, PartialEq, Eq)]
pub enum HaltReason {
    /// The exception vectors could not be installed.
    Vectors { reason: &'static str },
    /// The MMU could not be activated.
    Mmu { reason: &'static str },
    /// The heap could not be initialised.
    Heap { reason: &'static str },
    /// The driver at `index` failed to initialise.
    DriverInit { index: usize, name: &'static str },
    /// Driver bring-up could not be finished.
    DriverSetup { reason: &'static str },
    /// Interrupts could not be unmasked.
    Unmask { reason: &'static str },
    /// An allocation of `size` bytes aligned to `align` could not be served.
    OutOfMemory { size: usize, align: usize },
}

/// A driver that goes on without interrupt service.
#[derive(Clone, Copy, Debug, PartialEq, Eq)]
pub struct BootWarning {
    /// Position of the driver in the driver list.
    pub index: usize,
    /// Name of the driver.
    pub driver: &'static str,
    /// Why its handler could not be registered.
    pub reason: &'static str,
}

/// What a step has to report besides the next action.
#[derive(Clone, Copy, Debug, PartialEq, Eq)]
pub enum Diagnostic {
    /// Boot continues; the driver named has no interrupt service.
    Warning(BootWarning),
    /// Boot has stopped.
    Halt(HaltReason),
}

/// Where the sequence stands.
#[derive(Clone, Copy, Debug, PartialEq, Eq, Structural)]
pub struct Progress {
    /// The action that is waiting for its outcome.
    pub current: BootAction,
    pub lifecycle: CoreLifecycleState,
    /// Drivers whose interrupt handler was registered.
    pub registered: usize,
    /// Drivers that were skipped with a warning.
    pub skipped: usize,
}

/// The boot sequence as contracts see it.
pub struct BootState {
    /// Names of the drivers, in the order they are brought up.
    pub drivers: Seq<&'static str>,
    pub progress: Progress,
}

/// Place of an action in the boot order.
pub open spec fn rank(action: BootAction) -> int {
    match action {
        BootAction::InstallVectors => 0,
        BootAction::ActivateMmu => 1,
        BootAction::InitHeap { .. } => 2,
        BootAction::InitDriver { .. } => 3,
        BootAction::CompleteDriverInit => 4,
        BootAction::RegisterIrqHandler { .. } => 5,
        BootAction::UnmaskInterrupts => 6,
        BootAction::EnterMain => 7,
        BootAction::Halt => 8,
    }
}

/// The action that follows `current` once it is done, with `n` drivers.
pub open spec fn successor(n: int, current: BootAction) -> BootAction {
    match current {
        BootAction::InstallVectors => BootAction::ActivateMmu,
        BootAction::ActivateMmu => BootAction::InitHeap { start: HEAP_START, size: HEAP_SIZE },
        BootAction::InitHeap { .. } => if n > 0 {
            BootAction::InitDriver { index: 0 }
        } else {
            BootAction::CompleteDriverInit
        },
        BootAction::InitDriver { index } => if index + 1 < n {
            BootAction::InitDriver { index: (index + 1) as usize }
        } else {
            BootAction::CompleteDriverInit
        },
        BootAction::CompleteDriverInit => if n > 0 {
            BootAction::RegisterIrqHandler { index: 0 }
        } else {
            BootAction::UnmaskInterrupts
        },
        BootAction::RegisterIrqHandler { index } => if index + 1 < n {
            BootAction::RegisterIrqHandler { index: (index + 1) as usize }
        } else {
            BootAction::UnmaskInterrupts
        },
        BootAction::UnmaskInterrupts => BootAction::EnterMain,
        BootAction::EnterMain => BootAction::EnterMain,
        BootAction::Halt => BootAction::Halt,
    }
}

/// Whether the sequence is over, one way or the other.
pub open spec fn terminal(action: BootAction) -> bool {
    action is EnterMain || action is Halt
}

/// Where the sequence stands after the current action went well (`done`) or
/// failed. A failed handler registration is counted and passed over; any
/// other failure halts. The lifecycle state is published when unmasking is
/// done.
pub open spec fn next_progress(n: int, p: Progress, done: bool) -> Progress {
    if terminal(p.current) {
        p
    } else if p.current is RegisterIrqHandler {
        Progress {
            current: successor(n, p.current),
            lifecycle: p.lifecycle,
            registered: if done {
                (p.registered + 1) as usize
            } else {
                p.registered
            },
            skipped: if done {
                p.skipped
            } else {
                (p.skipped + 1) as usize
            },
        }
    } else if !done {
        Progress { current: BootAction::Halt, ..p }
    } else if p.current is UnmaskInterrupts {
        Progress {
            current: BootAction::EnterMain,
            lifecycle: CoreLifecycleState::SingleCoreMain,
            ..p
        }
    } else {
        Progress { current: successor(n, p.current), ..p }
    }
}

/// What has to be reported when the current action ended with `outcome`.
pub open spec fn diagnostic_for(state: BootState, outcome: StepOutcome) -> Option<Diagnostic> {
    match outcome {
        StepOutcome::Done => None,
        StepOutcome::Failed { reason } => match state.progress.current {
            BootAction::InstallVectors => Some(Diagnostic::Halt(HaltReason::Vectors { reason })),
            BootAction::ActivateMmu => Some(Diagnostic::Halt(HaltReason::Mmu { reason })),
            BootAction::InitHeap { .. } => Some(Diagnostic::Halt(HaltReason::Heap { reason })),
            BootAction::InitDriver { index } => Some(
                Diagnostic::Halt(
                    HaltReason::DriverInit { index, name: state.drivers[index as int] },
                ),
            ),
            BootAction::CompleteDriverInit => Some(
                Diagnostic::Halt(HaltReason::DriverSetup { reason }),
            ),
            BootAction::RegisterIrqHandler { index } => Some(
                Diagnostic::Warning(
                    BootWarning { index, driver: state.drivers[index as int], reason },
                ),
            ),
            BootAction::UnmaskInterrupts => Some(Diagnostic::Halt(HaltReason::Unmask { reason })),
            BootAction::EnterMain => None,
            BootAction::Halt => None,
        },
    }
}

/// The invariant of the sequence with `n` drivers: a driver index is in
/// range; every driver before the one whose handler is being registered has
/// either registered or been skipped; unmasking and the main function are
/// reached only when that holds of all drivers; and the lifecycle state is
/// `SingleCoreMain` exactly from the hand-off on.
pub open spec fn consistent(n: int, p: Progress) -> bool {
    &&& match p.current {
        BootAction::InitHeap { start, size } => start == HEAP_START && size == HEAP_SIZE
            && p.registered + p.skipped == 0,
        BootAction::InitDriver { index } => index < n && p.registered + p.skipped == 0,
        BootAction::RegisterIrqHandler { index } => index < n && p.registered + p.skipped
            == index,
        BootAction::UnmaskInterrupts => p.registered + p.skipped == n,
        BootAction::EnterMain => p.registered + p.skipped == n,
        BootAction::Halt => p.registered + p.skipped <= n,
        _ => p.registered + p.skipped == 0,
    }
    &&& p.lifecycle is SingleCoreMain <==> p.current is EnterMain
}

/// Where the sequence stands after a run of steps, of which `outcomes` tells
/// for each whether it went well.
pub open spec fn run(n: int, p: Progress, outcomes: Seq<bool>) -> Progress
    decreases outcomes.len(),
{
    if outcomes.len() == 0 {
        p
    } else {
        next_progress(n, run(n, p, outcomes.drop_last()), outcomes.last())
    }
}

/// Where every boot starts.
pub open spec fn initial_progress() -> Progress {
    Progress {
        current: BootAction::InstallVectors,
        lifecycle: CoreLifecycleState::PreInit,
        registered: 0,
        skipped: 0,
    }
}

impl HaltReason {
    /// The text of the halt message.
    pub open spec fn text(self) -> Seq<char> {
        match self {
            HaltReason::Vectors { reason } => "Exception vectors: "@ + reason@,
            HaltReason::Mmu { reason } => "MMU: "@ + reason@,
            HaltReason::Heap { reason } => "Heap: "@ + reason@,
            HaltReason::DriverInit { index, name } => "Error loading driver: "@ + name@,
            HaltReason::DriverSetup { reason } => "Driver setup: "@ + reason@,
            HaltReason::Unmask { reason } => "IRQ unmask: "@ + reason@,
            HaltReason::OutOfMemory { size, align } => "TITSUP"@,
        }
    }

    /// The halt message: the component that failed and the cause.
    pub fn message(&self) -> (message: String)
        ensures
            message@ == self.text(),
    {
        match *self {
            HaltReason::Vectors { reason } => joined("Exception vectors: ", reason),
            HaltReason::Mmu { reason } => joined("MMU: ", reason),
            HaltReason::Heap { reason } => joined("Heap: ", reason),
            HaltReason::DriverInit { index: _, name } => joined("Error loading driver: ", name),
            HaltReason::DriverSetup { reason } => joined("Driver setup: ", reason),
            HaltReason::Unmask { reason } => joined("IRQ unmask: ", reason),
            HaltReason::OutOfMemory { size: _, align: _ } => String::from_str("TITSUP"),
        }
    }
}

impl Diagnostic {
    /// Whether boot goes on after the diagnostic.
    pub open spec fn survivable(self) -> bool {
        self is Warning
    }

    /// The class of the diagnostic: a warning is passed over, a halt is
    /// fatal.
    pub fn severity(&self) -> (severity: Severity)
        ensures
            severity == (if self.survivable() {
                Severity::Warning
            } else {
                Severity::Fatal
            }),
    {
        match self {
            Diagnostic::Warning(_) => Severity::Warning,
            Diagnostic::Halt(_) => Severity::Fatal,
        }
    }

    /// The text of the diagnostic.
    pub open spec fn text(self) -> Seq<char> {
        match self {
            Diagnostic::Warning(warning) => warning.text(),
            Diagnostic::Halt(reason) => reason.text(),
        }
    }

    /// The message to print for the diagnostic.
    pub fn message(&self) -> (message: String)
        ensures
            message@ == self.text(),
    {
        match self {
            Diagnostic::Warning(warning) => warning.message(),
            Diagnostic::Halt(reason) => reason.message(),
        }
    }
}

impl BootWarning {
    /// The text of the warning.
    pub open spec fn text(self) -> Seq<char> {
        "Error registering IRQ handler for "@ + self.driver@ + ": "@ + self.reason@
    }

    /// The warning message, which names the driver and gives the reason.
    pub fn message(&self) -> (message: String)
        ensures
            message@ == self.text(),
    {
        let mut message = joined("Error registering IRQ handler for ", self.driver);
        message.append(": ");
        message.append(self.reason);
        message
    }
}

/// `head` followed by `tail`.
fn joined(head: &str, tail: &str) -> (text: String)
    ensures
        text@ == head@ + tail@,
{
    let mut text = String::from_str(head);
    text.append(tail);
    text
}

/// Decides what an allocation failure means: the boot, or the kernel, halts
/// with an out-of-memory report for the request that could not be served.
pub fn foo(size: usize, align: usize) -> (reason: HaltReason)
    ensures
        reason == (HaltReason::OutOfMemory { size, align }),
{
    HaltReason::OutOfMemory { size, align }
}

/// The boot sequence of one core.
pub struct BootSequence {
    drivers: Vec<&'static str>,
    progress: Progress,
}

impl View for BootSequence {
    type V = BootState;

    closed spec fn view(&self) -> BootState {
        BootState { drivers: self.drivers@, progress: self.progress }
    }
}

impl BootSequence {
    #[verifier::type_invariant]
    spec fn inv(self) -> bool {
        consistent(self.drivers@.len() as int, self.progress)
    }

    /// A sequence for the given drivers, before its first step.
    pub fn new(drivers: Vec<&'static str>) -> (boot: BootSequence)
        ensures
            boot@.drivers == drivers@,
            boot@.progress == initial_progress(),
    {
        BootSequence {
            drivers,
            progress: Progress {
                current: BootAction::InstallVectors,
                lifecycle: CoreLifecycleState::PreInit,
                registered: 0,
                skipped: 0,
            },
        }
    }

    /// The action that has to be performed now.
    pub fn action(&self) -> (action: BootAction)
        ensures
            action == self@.progress.current,
            consistent(self@.drivers.len() as int, self@.progress),
    {
        proof {
            use_type_invariant(self);
        }
        self.progress.current
    }

    /// The lifecycle state. It is `SingleCoreMain` exactly when the sequence
    /// has handed off to the main function.
    pub fn lifecycle(&self) -> (state: CoreLifecycleState)
        ensures
            state == self@.progress.lifecycle,
            state is SingleCoreMain <==> self@.progress.current is EnterMain,
    {
        proof {
            use_type_invariant(self);
        }
        self.progress.lifecycle
    }

    /// Where the sequence stands.
    pub fn progress(&self) -> (progress: Progress)
        ensures
            progress == self@.progress,
            consistent(self@.drivers.len() as int, progress),
    {
        proof {
            use_type_invariant(self);
        }
        self.progress
    }

    /// Name of the driver at `index`, if there is one.
    pub fn driver(&self, index: usize) -> (name: Option<&'static str>)
        ensures
            name == (if index < self@.drivers.len() {
                Some(self@.drivers[index as int])
            } else {
                None
            }),
    {
        if index < self.drivers.len() {
            Some(self.drivers[index])
        } else {
            None
        }
    }

    /// The drivers with their ordinal numbers, counted from one.
    pub fn drivers_loaded(&self) -> (listing: Vec<(usize, &'static str)>)
        ensures
            listing@.len() == self@.drivers.len(),
            forall|i: int|
                0 <= i < listing@.len() ==> (#[trigger] listing@[i]) == ((i + 1) as usize, self@.drivers[i]),
    {
        let n: usize = self.drivers.len();
        let mut listing: Vec<(usize, &'static str)> = Vec::new();
        let mut i: usize = 0;
        while i < n
            invariant
                n == self.drivers@.len(),
                i <= n,
                listing@.len() == i,
                forall|k: int|
                    0 <= k < i ==> (#[trigger] listing@[k]) == ((k + 1) as usize, self.drivers@[k]),
            decreases n - i,
        {
            listing.push((i + 1, self.drivers[i]));
            i += 1;
        }
        listing
    }

    /// Takes the outcome of the current action and moves on.
    ///
    /// The sequence is afterwards where [`next_progress`] says, and the
    /// answer is what [`diagnostic_for`] says: nothing after a success, a
    /// warning that names the driver after a failed handler registration,
    /// and the reason for the halt after any other failure. Once the
    /// sequence has halted or handed off, outcomes change nothing and
    /// nothing is reported.
    pub fn advance(&mut self, outcome: StepOutcome) -> (diagnostic: Option<Diagnostic>)
        ensures
            final(self)@.drivers == old(self)@.drivers,
            final(self)@.progress == next_progress(
                old(self)@.drivers.len() as int,
                old(self)@.progress,
                outcome is Done,
            ),
            diagnostic == diagnostic_for(old(self)@, outcome),
            consistent(final(self)@.drivers.len() as int, final(self)@.progress),
    {
        let n: usize = self.drivers.len();
        let p = self.progress;
        proof {
            use_type_invariant(&*self);
            lemma_step_keeps_consistent(n as int, p, outcome is Done);
        }
        let following = match p.current {
            BootAction::InstallVectors => BootAction::ActivateMmu,
            BootAction::ActivateMmu => BootAction::InitHeap {
                start: HEAP_START,
                size: HEAP_SIZE,
            },
            BootAction::InitHeap { start: _, size: _ } => if n > 0 {
                BootAction::InitDriver { index: 0 }
            } else {
                BootAction::CompleteDriverInit
            },
            BootAction::InitDriver { index } => if index + 1 < n {
                BootAction::InitDriver { index: index + 1 }
            } else {
                BootAction::CompleteDriverInit
            },
            BootAction::CompleteDriverInit => if n > 0 {
                BootAction::RegisterIrqHandler { index: 0 }
            } else {
                BootAction::UnmaskInterrupts
            },
            BootAction::RegisterIrqHandler { index } => if index + 1 < n {
                BootAction::RegisterIrqHandler { index: index + 1 }
            } else {
                BootAction::UnmaskInterrupts
            },
            BootAction::UnmaskInterrupts => BootAction::EnterMain,
            BootAction::EnterMain => BootAction::EnterMain,
            BootAction::Halt => BootAction::Halt,
        };
        assert(following == successor(n as int, p.current));
        match p.current {
            BootAction::EnterMain => None,
            BootAction::Halt => None,
            BootAction::RegisterIrqHandler { index } => match outcome {
                StepOutcome::Done => {
                    self.progress = Progress {
                        current: following,
                        registered: p.registered + 1,
                        ..p
                    };
                    None
                },
                StepOutcome::Failed { reason } => {
                    self.progress = Progress { current: following, skipped: p.skipped + 1, ..p };
                    Some(
                        Diagnostic::Warning(
                            BootWarning { index, driver: self.drivers[index], reason },
                        ),
                    )
                },
            },
            current => match outcome {
                StepOutcome::Done => {
                    let lifecycle = match current {
                        BootAction::UnmaskInterrupts => CoreLifecycleState::SingleCoreMain,
                        _ => p.lifecycle,
                    };
                    self.progress = Progress { current: following, lifecycle, ..p };
                    None
                },
                StepOutcome::Failed { reason } => {
                    self.progress = Progress { current: BootAction::Halt, ..p };
                    let halt = match current {
                        BootAction::InstallVectors => HaltReason::Vectors { reason },
                        BootAction::ActivateMmu => HaltReason::Mmu { reason },
                        BootAction::InitHeap { start: _, size: _ } => HaltReason::Heap { reason },
                        BootAction::InitDriver { index } => HaltReason::DriverInit {
                            index,
                            name: self.drivers[index],
                        },
                        BootAction::CompleteDriverInit => HaltReason::DriverSetup { reason },
                        _ => HaltReason::Unmask { reason },
                    };
                    Some(Diagnostic::Halt(halt))
                },
            },
        }
    }
}

/// Every step keeps the sequence consistent.
pub proof fn lemma_step_keeps_consistent(n: int, p: Progress, done: bool)
    requires
        0 <= n <= usize::MAX,
        consistent(n, p),
    ensures
        consistent(n, next_progress(n, p, done)),
{
}

/// The first step of every boot is consistent.
pub proof fn lemma_initial_consistent(n: int)
    requires
        0 <= n,
    ensures
        consistent(n, initial_progress()),
{
}

/// No step goes back in the boot order, and the lifecycle state never
/// returns to `PreInit`.
pub proof fn lemma_step_moves_forward(n: int, p: Progress, done: bool)
    requires
        0 <= n <= usize::MAX,
        consistent(n, p),
    ensures
        rank(next_progress(n, p, done).current) >= rank(p.current),
        p.lifecycle is SingleCoreMain ==> next_progress(n, p, done).lifecycle is SingleCoreMain,
        next_progress(n, p, done).current is UnmaskInterrupts ==> next_progress(
            n,
            p,
            done,
        ).registered + next_progress(n, p, done).skipped == n,
{
}

/// A failed driver initialisation halts the boot and names the driver.
pub proof fn lemma_driver_init_failure_halts(
    state: BootState,
    index: usize,
    reason: &'static str,
)
    requires
        state.progress.current == (BootAction::InitDriver { index }),
    ensures
        next_progress(state.drivers.len() as int, state.progress, false).current is Halt,
        diagnostic_for(state, StepOutcome::Failed { reason }) == Some(
            Diagnostic::Halt(HaltReason::DriverInit { index, name: state.drivers[index as int] }),
        ),
{
}

/// Once halted the sequence stays halted, whatever is reported to it: no
/// later action, and so no later driver, is ever asked for.
pub proof fn lemma_halt_is_final(n: int, p: Progress, outcomes: Seq<bool>)
    requires
        p.current is Halt,
    ensures
        run(n, p, outcomes) == p,
    decreases outcomes.len(),
{
    if outcomes.len() > 0 {
        lemma_halt_is_final(n, p, outcomes.drop_last());
    }
}

/// Failed handler registrations do not stop the boot: from the registration
/// of driver `index` on, whatever the remaining registrations answer, the
/// sequence arrives at unmasking with every driver accounted for; and when
/// unmasking is done it hands off with the lifecycle state `SingleCoreMain`.
pub proof fn lemma_registration_failures_are_survivable(
    n: int,
    p: Progress,
    index: usize,
    outcomes: Seq<bool>,
)
    requires
        0 <= n <= usize::MAX,
        consistent(n, p),
        p.current == (BootAction::RegisterIrqHandler { index }),
        outcomes.len() == n - index,
    ensures
        run(n, p, outcomes).current is UnmaskInterrupts,
        run(n, p, outcomes).registered + run(n, p, outcomes).skipped == n,
        next_progress(n, run(n, p, outcomes), true).current is EnterMain,
        next_progress(n, run(n, p, outcomes), true).lifecycle is SingleCoreMain,
{
    lemma_registration_run(n, p, index, outcomes);
}

/// After `k` registration outcomes the sequence is at the registration of
/// the driver `k` places on, or at unmasking when no driver is left.
proof fn lemma_registration_run(n: int, p: Progress, index: usize, outcomes: Seq<bool>)
    requires
        0 <= n <= usize::MAX,
        consistent(n, p),
        p.current == (BootAction::RegisterIrqHandler { index }),
        outcomes.len() <= n - index,
    ensures
        consistent(n, run(n, p, outcomes)),
        run(n, p, outcomes).current == (if index + outcomes.len() < n {
            BootAction::RegisterIrqHandler { index: (index + outcomes.len()) as usize }
        } else {
            BootAction::UnmaskInterrupts
        }),
    decreases outcomes.len(),
{
    if outcomes.len() > 0 {
        lemma_registration_run(n, p, index, outcomes.drop_last());
        lemma_step_keeps_consistent(n, run(n, p, outcomes.drop_last()), outcomes.last());
    }
}

} // verus!
