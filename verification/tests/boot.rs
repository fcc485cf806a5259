use bringup::boot::{
    foo, BootAction, BootSequence, BootWarning, CoreLifecycleState, Diagnostic, HaltReason,
    Progress, StepOutcome, HEAP_SIZE, HEAP_START,
};
use bringup::irq::Severity;

fn failed(reason: &'static str) -> StepOutcome {
    StepOutcome::Failed { reason }
}

fn run_until(boot: &mut BootSequence, stop: BootAction) {
    let mut steps = 0;
    while boot.action() != stop {
        assert!(steps < 100, "the sequence never asked for {:?}", stop);
        assert_eq!(boot.advance(StepOutcome::Done), None);
        steps += 1;
    }
}

#[test]
fn heap_range() {
    assert_eq!(HEAP_START, 0x0020_0000);
    assert_eq!(HEAP_SIZE, 4 * 1024 * 1024);
}

#[test]
fn boot_order_with_two_drivers() {
    let mut boot = BootSequence::new(vec!["uart0", "gpio"]);
    let mut seen = Vec::new();
    loop {
        let action = boot.action();
        seen.push(action);
        if action == BootAction::EnterMain {
            break;
        }
        assert_eq!(boot.lifecycle(), CoreLifecycleState::PreInit);
        assert_eq!(boot.advance(StepOutcome::Done), None);
    }
    assert_eq!(
        seen,
        vec![
            BootAction::InstallVectors,
            BootAction::ActivateMmu,
            BootAction::InitHeap { start: 0x0020_0000, size: 0x0040_0000 },
            BootAction::InitDriver { index: 0 },
            BootAction::InitDriver { index: 1 },
            BootAction::CompleteDriverInit,
            BootAction::RegisterIrqHandler { index: 0 },
            BootAction::RegisterIrqHandler { index: 1 },
            BootAction::UnmaskInterrupts,
            BootAction::EnterMain,
        ]
    );
    assert_eq!(boot.lifecycle(), CoreLifecycleState::SingleCoreMain);
    assert_eq!(
        boot.progress(),
        Progress {
            current: BootAction::EnterMain,
            lifecycle: CoreLifecycleState::SingleCoreMain,
            registered: 2,
            skipped: 0,
        }
    );
}

#[test]
fn boot_order_without_drivers() {
    let mut boot = BootSequence::new(Vec::new());
    let mut seen = Vec::new();
    loop {
        let action = boot.action();
        seen.push(action);
        if action == BootAction::EnterMain {
            break;
        }
        assert_eq!(boot.advance(StepOutcome::Done), None);
    }
    assert_eq!(
        seen,
        vec![
            BootAction::InstallVectors,
            BootAction::ActivateMmu,
            BootAction::InitHeap { start: HEAP_START, size: HEAP_SIZE },
            BootAction::CompleteDriverInit,
            BootAction::UnmaskInterrupts,
            BootAction::EnterMain,
        ]
    );
    assert_eq!(boot.lifecycle(), CoreLifecycleState::SingleCoreMain);
}

#[test]
fn failed_uart0_init_halts_before_any_further_driver() {
    let mut boot = BootSequence::new(vec!["uart0", "gpio", "mailbox"]);
    run_until(&mut boot, BootAction::InitDriver { index: 0 });
    let diagnostic = boot.advance(failed("")).expect("a failed init is reported");
    assert_eq!(diagnostic, Diagnostic::Halt(HaltReason::DriverInit { index: 0, name: "uart0" }));
    assert_eq!(diagnostic.severity(), Severity::Fatal);
    assert_eq!(diagnostic.message(), "Error loading driver: uart0");
    assert!(diagnostic.message().contains("uart0"));

    assert_eq!(boot.action(), BootAction::Halt);
    for outcome in [StepOutcome::Done, failed("again"), StepOutcome::Done] {
        assert_eq!(boot.advance(outcome), None);
        assert_eq!(boot.action(), BootAction::Halt);
    }
    assert_eq!(boot.lifecycle(), CoreLifecycleState::PreInit);
}

#[test]
fn failed_later_driver_init_names_that_driver() {
    let mut boot = BootSequence::new(vec!["uart0", "gpio", "mailbox"]);
    run_until(&mut boot, BootAction::InitDriver { index: 1 });
    assert_eq!(
        boot.advance(failed("no response")),
        Some(Diagnostic::Halt(HaltReason::DriverInit { index: 1, name: "gpio" }))
    );
    assert_eq!(boot.action(), BootAction::Halt);
}

#[test]
fn failed_gpio_handler_registration_is_only_a_warning() {
    let mut boot = BootSequence::new(vec!["uart0", "gpio"]);
    run_until(&mut boot, BootAction::RegisterIrqHandler { index: 0 });
    assert_eq!(boot.advance(StepOutcome::Done), None);
    assert_eq!(boot.action(), BootAction::RegisterIrqHandler { index: 1 });

    let diagnostic = boot.advance(failed("IRQ number out of range")).expect("a warning");
    assert_eq!(
        diagnostic,
        Diagnostic::Warning(BootWarning {
            index: 1,
            driver: "gpio",
            reason: "IRQ number out of range",
        })
    );
    assert_eq!(diagnostic.severity(), Severity::Warning);
    assert_eq!(
        diagnostic.message(),
        "Error registering IRQ handler for gpio: IRQ number out of range"
    );

    assert_eq!(boot.action(), BootAction::UnmaskInterrupts);
    assert_eq!(boot.lifecycle(), CoreLifecycleState::PreInit);
    assert_eq!(boot.advance(StepOutcome::Done), None);
    assert_eq!(boot.action(), BootAction::EnterMain);
    assert_eq!(boot.lifecycle(), CoreLifecycleState::SingleCoreMain);
    let progress = boot.progress();
    assert_eq!((progress.registered, progress.skipped), (1, 1));
}

#[test]
fn every_handler_registration_may_fail() {
    let mut boot = BootSequence::new(vec!["a", "b", "c"]);
    run_until(&mut boot, BootAction::RegisterIrqHandler { index: 0 });
    for (index, driver) in ["a", "b", "c"].into_iter().enumerate() {
        assert_eq!(boot.action(), BootAction::RegisterIrqHandler { index });
        assert_eq!(
            boot.advance(failed("busy")),
            Some(Diagnostic::Warning(BootWarning { index, driver, reason: "busy" }))
        );
    }
    assert_eq!(boot.action(), BootAction::UnmaskInterrupts);
    assert_eq!(boot.progress().skipped, 3);
    assert_eq!(boot.advance(StepOutcome::Done), None);
    assert_eq!(boot.lifecycle(), CoreLifecycleState::SingleCoreMain);
}

#[test]
fn failures_of_the_other_steps_halt() {
    let cases = [
        (BootAction::InstallVectors, HaltReason::Vectors { reason: "r" }, "Exception vectors: r"),
        (BootAction::ActivateMmu, HaltReason::Mmu { reason: "r" }, "MMU: r"),
        (
            BootAction::InitHeap { start: HEAP_START, size: HEAP_SIZE },
            HaltReason::Heap { reason: "r" },
            "Heap: r",
        ),
        (BootAction::CompleteDriverInit, HaltReason::DriverSetup { reason: "r" }, "Driver setup: r"),
        (BootAction::UnmaskInterrupts, HaltReason::Unmask { reason: "r" }, "IRQ unmask: r"),
    ];
    for (action, reason, text) in cases {
        let mut boot = BootSequence::new(vec!["uart0"]);
        run_until(&mut boot, action);
        assert_eq!(boot.advance(failed("r")), Some(Diagnostic::Halt(reason)));
        assert_eq!(reason.message(), text);
        assert_eq!(boot.action(), BootAction::Halt);
        assert_eq!(boot.lifecycle(), CoreLifecycleState::PreInit);
    }
}

#[test]
fn mmu_failure_message_carries_the_reason() {
    let mut boot = BootSequence::new(vec!["uart0"]);
    run_until(&mut boot, BootAction::ActivateMmu);
    let diagnostic = boot.advance(failed("64 KiB translation granule not supported")).unwrap();
    assert_eq!(diagnostic.message(), "MMU: 64 KiB translation granule not supported");
}

#[test]
fn hand_off_is_final() {
    let mut boot = BootSequence::new(vec!["uart0"]);
    run_until(&mut boot, BootAction::EnterMain);
    let before = boot.progress();
    assert_eq!(boot.advance(failed("late")), None);
    assert_eq!(boot.advance(StepOutcome::Done), None);
    assert_eq!(boot.progress(), before);
    assert_eq!(boot.lifecycle(), CoreLifecycleState::SingleCoreMain);
}

#[test]
fn drivers_are_listed_from_one() {
    let boot = BootSequence::new(vec!["BCM GPIO", "BCM PL011 UART", "BCM Peripheral Interrupt Controller"]);
    assert_eq!(
        boot.drivers_loaded(),
        vec![
            (1, "BCM GPIO"),
            (2, "BCM PL011 UART"),
            (3, "BCM Peripheral Interrupt Controller"),
        ]
    );
    assert_eq!(boot.driver(1), Some("BCM PL011 UART"));
    assert_eq!(boot.driver(3), None);
    assert_eq!(BootSequence::new(Vec::new()).drivers_loaded(), Vec::new());
}

#[test]
fn allocation_failure_is_fatal() {
    let reason = foo(4096, 16);
    assert_eq!(reason, HaltReason::OutOfMemory { size: 4096, align: 16 });
    assert_eq!(reason.message(), "TITSUP");
    assert_eq!(Diagnostic::Halt(reason).severity(), Severity::Fatal);
}
