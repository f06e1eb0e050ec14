use meowsbi::ipi::IPIReq;
use meowsbi::sbi::{
    call, complete, ipi_mask, timer_update, MachineId, SBIBaseFunc, SBIErr, SBIExt, SBIRet,
    SbiAction, SBI_IMPL_ID,
};

fn ok(v: usize) -> SbiAction {
    SbiAction::Reply(SBIRet { error: SBIErr::Success, value: v })
}

fn not_supported() -> SbiAction {
    SbiAction::Reply(SBIRet { error: SBIErr::NotSupported, value: 0 })
}

const SUPPORTED: [usize; 13] = [
    0x00, 0x01, 0x02, 0x03, 0x04, 0x05, 0x06, 0x07, 0x08, 0x10, 0x735049, 0x52464E43, 0x54494D45,
];

#[test]
fn base_queries_answer_documented_values() {
    assert_eq!(call(0x10, 0, 0, 0, 0), ok(2));
    assert_eq!(call(0x10, 1, 0, 0, 0), ok(0x776f654d));
    assert_eq!(call(0x10, 1, 0, 0, 0), ok(SBI_IMPL_ID));
    assert_eq!(call(0x10, 2, 0, 0, 0), ok(1));
    assert_eq!(call(0x10, 4, 0, 0, 0), SbiAction::ReadMachineId(MachineId::Vendor));
    assert_eq!(call(0x10, 5, 0, 0, 0), SbiAction::ReadMachineId(MachineId::Arch));
    assert_eq!(call(0x10, 6, 0, 0, 0), SbiAction::ReadMachineId(MachineId::Impl));
    assert_eq!(call(0x10, 7, 0, 0, 0), not_supported());
}

#[test]
fn probe_succeeds_exactly_for_supported_extensions() {
    for id in SUPPORTED {
        assert_eq!(call(0x10, 3, id, 0, 0), ok(0), "probe {:#x}", id);
    }
    for id in [0x09usize, 0x0f, 0x11, 0x48534D, 0x735048, usize::MAX] {
        assert_eq!(call(0x10, 3, id, 0, 0), not_supported(), "probe {:#x}", id);
    }
}

#[test]
fn every_supported_pair_succeeds_once_done() {
    let pairs: [(usize, usize); 17] = [
        (0x00, 0), (0x01, 0), (0x02, 0), (0x03, 0), (0x04, 0), (0x05, 0), (0x06, 0),
        (0x07, 0), (0x10, 0), (0x10, 1), (0x10, 2), (0x735049, 0), (0x52464E43, 0),
        (0x52464E43, 1), (0x52464E43, 2), (0x54494D45, 0), (0x10, 3),
    ];
    for (ext, func) in pairs {
        let action = call(ext, func, 0x10, 0, 0);
        let r = complete(action, Some(b'x' as usize));
        assert!(r.error == SBIErr::Success || r.error == SBIErr::Legacy, "{:#x}/{}", ext, func);
    }
}

#[test]
fn unknown_extension_or_function_is_not_supported() {
    assert_eq!(call(0x09, 0, 1, 2, 3), not_supported());
    assert_eq!(call(0x4442434E, 0, 1, 2, 3), not_supported());
    assert_eq!(call(0x735049, 1, 1, 0, 0), not_supported());
    assert_eq!(call(0x52464E43, 3, 1, 0, 0), not_supported());
    assert_eq!(call(0x54494D45, 1, 1, 0, 0), not_supported());
    assert_eq!(complete(not_supported(), None).error.code(), -2);
}

#[test]
fn legacy_calls_decode_to_actions() {
    assert_eq!(call(0x00, 0, 12345, 0, 0), SbiAction::SetTimer(12345));
    assert_eq!(call(0x01, 0, 0x141, 0, 0), SbiAction::PutChar(0x41));
    assert_eq!(call(0x02, 0, 0, 0, 0), SbiAction::GetChar);
    assert_eq!(call(0x03, 0, 0, 0, 0), SbiAction::ClearSoftIpi);
    assert_eq!(call(0x04, 0, 0, 0, 0), SbiAction::SendIpi { mask: usize::MAX, req: IPIReq::S_IPI });
    assert_eq!(
        call(0x04, 0, 0x8000, 0, 0),
        SbiAction::SendIpiAt { addr: 0x8000, translated: true, req: IPIReq::S_IPI }
    );
    assert_eq!(
        call(0x05, 0, 0x8000, 0, 0),
        SbiAction::SendIpiAt { addr: 0x8000, translated: true, req: IPIReq::FENCE_I }
    );
    assert_eq!(
        call(0x06, 0, 0, 0, 0),
        SbiAction::SendIpi { mask: usize::MAX, req: IPIReq::SFENCE_VMA }
    );
    assert_eq!(
        call(0x07, 0, 0x9000, 0, 0),
        SbiAction::SendIpiAt { addr: 0x9000, translated: false, req: IPIReq::SFENCE_VMA }
    );
    assert_eq!(call(0x08, 0, 0, 0, 0), SbiAction::Shutdown);
}

#[test]
fn modern_calls_decode_to_actions() {
    assert_eq!(call(0x735049, 0, 0b101, 1, 0), SbiAction::SendIpi { mask: 0b1010, req: IPIReq::S_IPI });
    assert_eq!(call(0x52464E43, 0, 1, 0, 0), SbiAction::SendIpi { mask: 1, req: IPIReq::FENCE_I });
    assert_eq!(call(0x52464E43, 1, 1, 2, 0), SbiAction::SendIpi { mask: 4, req: IPIReq::SFENCE_VMA });
    assert_eq!(call(0x52464E43, 2, 3, 0, 0), SbiAction::SendIpi { mask: 3, req: IPIReq::SFENCE_VMA });
    assert_eq!(call(0x54494D45, 0, 777, 0, 0), SbiAction::SetTimer(777));
}

#[test]
fn hart_mask_base() {
    assert_eq!(ipi_mask(0b11, 0), 0b11);
    assert_eq!(ipi_mask(0b11, 2), 0b1100);
    assert_eq!(ipi_mask(0b101, usize::MAX), 0b101);
    assert_eq!(ipi_mask(1, 64), 0);
    assert_eq!(ipi_mask(1, 63), 1usize << 63);
}

#[test]
fn completing_actions() {
    assert_eq!(complete(SbiAction::GetChar, Some(0x61)), SBIRet { error: SBIErr::Legacy, value: 0x61 });
    assert_eq!(complete(SbiAction::GetChar, None), SBIRet { error: SBIErr::Legacy, value: usize::MAX });
    assert_eq!(
        complete(SbiAction::ReadMachineId(MachineId::Arch), Some(5)),
        SBIRet { error: SBIErr::Success, value: 5 }
    );
    assert_eq!(
        complete(SbiAction::ReadMachineId(MachineId::Vendor), None),
        SBIRet { error: SBIErr::NotSupported, value: 0 }
    );
    assert_eq!(complete(SbiAction::PutChar(1), None), SBIRet { error: SBIErr::Success, value: 0 });
    assert_eq!(complete(SbiAction::SetTimer(9), Some(3)), SBIRet { error: SBIErr::Success, value: 0 });
}

#[test]
fn result_conversions() {
    assert_eq!(SBIRet::from(7usize), SBIRet { error: SBIErr::Success, value: 7 });
    assert_eq!(SBIRet::from(SBIErr::Denied), SBIRet { error: SBIErr::Denied, value: 0 });
    assert_eq!(SBIRet::from(Some(3usize)), SBIRet { error: SBIErr::Success, value: 3 });
    assert_eq!(SBIRet::from(None::<usize>), SBIRet { error: SBIErr::NotSupported, value: 0 });
    let codes = [
        (SBIErr::Success, 0), (SBIErr::Legacy, 1), (SBIErr::Failed, -1), (SBIErr::NotSupported, -2),
        (SBIErr::InvalidParam, -3), (SBIErr::Denied, -4), (SBIErr::InvalidAddress, -5),
        (SBIErr::AlreadyAvailable, -6),
    ];
    for (e, c) in codes {
        assert_eq!(e.code(), c);
    }
}

#[test]
fn extension_ids_round_trip() {
    for id in SUPPORTED {
        let e = SBIExt::from_id(id).unwrap();
        assert_eq!(e.id(), id);
    }
    assert_eq!(SBIExt::from_id(0x10), Some(SBIExt::Base));
    assert_eq!(SBIExt::from_id(0x11), None);
    assert_eq!(SBIBaseFunc::from_id(3), Some(SBIBaseFunc::ProbExtension));
    assert_eq!(SBIBaseFunc::from_id(7), None);
}

#[test]
fn set_timer_with_timer_already_pending_masks_and_forwards() {
    let bits = timer_update(1 << 7);
    assert!(!bits.machine_timer_enabled);
    assert!(bits.supervisor_timer_pending);
    let bits = timer_update((1 << 7) | (1 << 5) | (1 << 3));
    assert!(!bits.machine_timer_enabled);
    assert!(bits.supervisor_timer_pending);
}

#[test]
fn set_timer_without_pending_arms_and_clears() {
    let bits = timer_update(0);
    assert!(bits.machine_timer_enabled);
    assert!(!bits.supervisor_timer_pending);
    let bits = timer_update((1 << 5) | (1 << 3) | (1 << 8));
    assert!(bits.machine_timer_enabled);
    assert!(!bits.supervisor_timer_pending);
}
