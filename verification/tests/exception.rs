use bringup::exception::{
    ExceptionVectorTable, FaultReport, Handler, PrivilegeLevel, TrapAction, TrapCause, TrapKind,
    TrapOrigin, VectorError, SLOT_COUNT,
};

const ORIGINS: [TrapOrigin; 4] = [
    TrapOrigin::CurrentLevelSharedStack,
    TrapOrigin::CurrentLevelOwnStack,
    TrapOrigin::LowerLevelWide,
    TrapOrigin::LowerLevelNarrow,
];

const KINDS: [TrapKind; 4] = [TrapKind::Synchronous, TrapKind::Irq, TrapKind::Fiq, TrapKind::SError];

fn filled() -> ExceptionVectorTable {
    let mut table = ExceptionVectorTable::new(PrivilegeLevel::Kernel);
    for origin in ORIGINS {
        for kind in KINDS {
            let cause = TrapCause { origin, kind };
            let id = 100 + cause.slot_index() as u64;
            assert_eq!(table.set_handler(cause, Handler { id }), Ok(()));
        }
    }
    table
}

#[test]
fn slots_are_numbered_by_origin_then_kind() {
    assert_eq!(SLOT_COUNT, 16);
    let mut expected = 0;
    for origin in ORIGINS {
        for kind in KINDS {
            let cause = TrapCause { origin, kind };
            assert_eq!(cause.slot_index(), expected);
            assert_eq!(TrapCause::from_slot(expected), Some(cause));
            expected += 1;
        }
    }
    assert_eq!(TrapCause::from_slot(16), None);
    assert_eq!(TrapCause::from_slot(usize::MAX), None);
}

#[test]
fn new_table_is_empty_and_uninstalled() {
    let table = ExceptionVectorTable::new(PrivilegeLevel::Hypervisor);
    assert!(!table.is_installed());
    assert_eq!(table.level(), PrivilegeLevel::Hypervisor);
    for slot in 0..SLOT_COUNT {
        assert_eq!(table.handler(TrapCause::from_slot(slot).unwrap()), None);
    }
}

#[test]
fn install_checks_every_slot_once() {
    let mut table = ExceptionVectorTable::new(PrivilegeLevel::Kernel);
    let first = TrapCause { origin: TrapOrigin::CurrentLevelSharedStack, kind: TrapKind::Synchronous };
    assert_eq!(table.handling_init(), Err(VectorError::EmptySlot(first)));
    assert!(!table.is_installed());

    for slot in 0..SLOT_COUNT {
        if slot != 6 && slot != 11 {
            let cause = TrapCause::from_slot(slot).unwrap();
            assert_eq!(table.set_handler(cause, Handler { id: slot as u64 }), Ok(()));
        }
    }
    let missing = TrapCause { origin: TrapOrigin::CurrentLevelOwnStack, kind: TrapKind::Fiq };
    assert_eq!(table.handling_init(), Err(VectorError::EmptySlot(missing)));
    assert!(!table.is_installed());
}

#[test]
fn install_succeeds_once() {
    let mut table = filled();
    assert_eq!(table.handling_init(), Ok(()));
    assert!(table.is_installed());
    assert_eq!(table.handling_init(), Err(VectorError::AlreadyInstalled));
    assert!(table.is_installed());
}

#[test]
fn installed_table_is_read_only() {
    let mut table = filled();
    assert_eq!(table.handling_init(), Ok(()));
    let cause = TrapCause { origin: TrapOrigin::LowerLevelWide, kind: TrapKind::Irq };
    assert_eq!(table.set_handler(cause, Handler { id: 1 }), Err(VectorError::AlreadyInstalled));
    assert_eq!(table.handler(cause), Some(Handler { id: 109 }));
}

#[test]
fn set_handler_replaces_before_install() {
    let mut table = ExceptionVectorTable::new(PrivilegeLevel::Kernel);
    let cause = TrapCause { origin: TrapOrigin::CurrentLevelOwnStack, kind: TrapKind::Irq };
    let other = TrapCause { origin: TrapOrigin::CurrentLevelOwnStack, kind: TrapKind::Fiq };
    assert_eq!(table.set_handler(cause, Handler { id: 1 }), Ok(()));
    assert_eq!(table.set_handler(cause, Handler { id: 2 }), Ok(()));
    assert_eq!(table.handler(cause), Some(Handler { id: 2 }));
    assert_eq!(table.handler(other), None);
}

#[test]
fn synchronous_trap_is_reported() {
    let mut table = filled();
    assert_eq!(table.handling_init(), Ok(()));
    let cause = TrapCause { origin: TrapOrigin::CurrentLevelOwnStack, kind: TrapKind::Synchronous };
    assert_eq!(
        table.handle(cause, 0x9600_0045, 0xdead_0000),
        TrapAction::ReportFault {
            handler: Handler { id: 104 },
            report: FaultReport {
                cause,
                syndrome: 0x9600_0045,
                fault_address: 0xdead_0000,
                level: PrivilegeLevel::Kernel,
            },
        }
    );
}

#[test]
fn asynchronous_traps_go_to_interrupt_dispatch() {
    let mut table = filled();
    assert_eq!(table.handling_init(), Ok(()));
    for (kind, id) in [(TrapKind::Irq, 105), (TrapKind::Fiq, 106), (TrapKind::SError, 107)] {
        let cause = TrapCause { origin: TrapOrigin::CurrentLevelOwnStack, kind };
        assert_eq!(
            table.handle(cause, 0, 0),
            TrapAction::DispatchInterrupt { handler: Handler { id }, kind }
        );
    }
}

#[test]
fn installed_table_never_halts_on_a_trap() {
    let mut table = filled();
    assert_eq!(table.handling_init(), Ok(()));
    for slot in 0..SLOT_COUNT {
        let cause = TrapCause::from_slot(slot).unwrap();
        match table.handle(cause, 0, 0) {
            TrapAction::Halt(e) => panic!("slot {} halted: {:?}", slot, e),
            _ => {}
        }
    }
}

#[test]
fn trap_before_install_is_fatal() {
    let table = filled();
    let cause = TrapCause { origin: TrapOrigin::CurrentLevelOwnStack, kind: TrapKind::Irq };
    assert_eq!(table.handle(cause, 0, 0), TrapAction::Halt(VectorError::NotInstalled));
}

#[test]
fn privilege_level_names() {
    assert_eq!(PrivilegeLevel::User.name(), "EL0");
    assert_eq!(PrivilegeLevel::Kernel.name(), "EL1");
    assert_eq!(PrivilegeLevel::Hypervisor.name(), "EL2");
    assert_eq!(PrivilegeLevel::Unknown.name(), "Unknown");
}

#[test]
fn vector_error_messages() {
    let cause = TrapCause { origin: TrapOrigin::LowerLevelNarrow, kind: TrapKind::SError };
    assert_eq!(VectorError::AlreadyInstalled.message(), "exception vectors are already installed");
    assert_eq!(VectorError::EmptySlot(cause).message(), "exception vector slot is empty");
    assert_eq!(VectorError::NotInstalled.message(), "exception vectors are not installed");
}
