use meowsbi::boot::next_boot;
use meowsbi::sbi::{SBIErr, SBIRet, SbiAction};
use meowsbi::trap::{
    finish_call, next_ret, scratch_on_return, trap_entry, wrapped_trap, TrapAction, TrapEntry,
    TrapFrame, NEXT_STAGE_ENTRY,
};

fn frame_with(a7: usize, a6: usize, a0: usize, a1: usize, a2: usize) -> TrapFrame {
    let mut tf = TrapFrame::new();
    tf.reg[17] = a7;
    tf.reg[16] = a6;
    tf.reg[10] = a0;
    tf.reg[11] = a1;
    tf.reg[12] = a2;
    tf
}

#[test]
fn supervisor_call_is_dispatched_from_frame_registers() {
    let tf = frame_with(0x10, 2, 0, 0, 0);
    assert_eq!(
        wrapped_trap(&tf, 9),
        TrapAction::Call(SbiAction::Reply(SBIRet { error: SBIErr::Success, value: 1 }))
    );
    let tf = frame_with(0x01, 0, 0x41, 0, 0);
    assert_eq!(wrapped_trap(&tf, 9), TrapAction::Call(SbiAction::PutChar(0x41)));
}

#[test]
fn machine_timer_interrupt_is_forwarded() {
    let tf = TrapFrame::new();
    assert_eq!(wrapped_trap(&tf, (1usize << 63) | 7), TrapAction::ForwardTimer);
}

#[test]
fn machine_software_interrupt_serves_the_slot() {
    let tf = TrapFrame::new();
    assert_eq!(wrapped_trap(&tf, (1usize << 63) | 3), TrapAction::ServeIpi);
    assert_eq!(wrapped_trap(&tf, 3), TrapAction::Unhandled(3));
}

#[test]
fn other_causes_are_unhandled() {
    let tf = TrapFrame::new();
    assert_eq!(wrapped_trap(&tf, 2), TrapAction::Unhandled(2));
    assert_eq!(wrapped_trap(&tf, 7), TrapAction::Unhandled(7));
    assert_eq!(wrapped_trap(&tf, (1usize << 63) | 9), TrapAction::Unhandled((1usize << 63) | 9));
}

#[test]
fn legacy_result_uses_one_register() {
    let mut tf = frame_with(0x02, 0, 5, 6, 7);
    let next = finish_call(&mut tf, SBIRet { error: SBIErr::Legacy, value: 0x61 }, 0x8020_0000);
    assert_eq!(next, 0x8020_0004);
    assert_eq!(tf.reg[10], 0x61);
    assert_eq!(tf.reg[11], 6);
}

#[test]
fn other_results_use_two_registers() {
    let mut tf = frame_with(0x10, 3, 5, 6, 7);
    let next = finish_call(&mut tf, SBIRet { error: SBIErr::NotSupported, value: 0 }, 100);
    assert_eq!(next, 104);
    assert_eq!(tf.reg[10] as isize, -2);
    assert_eq!(tf.reg[11], 0);
    let next = finish_call(&mut tf, SBIRet { error: SBIErr::Success, value: 9 }, usize::MAX - 1);
    assert_eq!(next, 2);
    assert_eq!(tf.reg[10], 0);
    assert_eq!(tf.reg[11], 9);
}

#[test]
fn trap_stack_selection() {
    assert_eq!(trap_entry(0x9000, 0x1234), Some(TrapEntry { frame_addr: 0x9000 - 256, nested: false, scratch: 0 }));
    assert_eq!(trap_entry(0, 0x8000), Some(TrapEntry { frame_addr: 0x8000 - 256, nested: true, scratch: 0 }));
    assert_eq!(trap_entry(0, 100), None);
}

#[test]
fn scratch_rearmed_only_below_machine_mode() {
    let mpp_machine = 3usize << 11;
    let mpp_supervisor = 1usize << 11;
    assert_eq!(scratch_on_return(mpp_machine, 0x8f00), 0);
    assert_eq!(scratch_on_return(mpp_supervisor, 0x8f00), 0x9000);
    assert_eq!(scratch_on_return(0, 0x8f00), 0x9000);
}

#[test]
fn capture_then_restore_keeps_registers() {
    let mut regs = [0usize; 32];
    for (i, r) in regs.iter_mut().enumerate() {
        *r = i * 11;
    }
    let tf = TrapFrame::capture(regs);
    assert_eq!(tf.restore(), regs);
    regs[0] = 5;
    let tf = TrapFrame::capture(regs);
    assert_eq!(tf.reg[0], 0);
    assert_eq!(tf.reg[31], 31 * 11);
}

#[test]
fn next_stage_frame_carries_hart_and_tree() {
    let tf = next_ret(3, 0x8220_0000);
    for i in 0..32 {
        let want = match i {
            10 => 3,
            11 => 0x8220_0000,
            _ => 0,
        };
        assert_eq!(tf.reg[i], want);
    }
    let nb = next_boot(1, 0x8220_0000);
    assert_eq!(nb.mepc, NEXT_STAGE_ENTRY);
    assert_eq!(nb.stvec, 0x8020_0000);
    assert_eq!(nb.mpp, 1);
    assert_eq!(nb.satp, 0);
    assert_eq!(nb.sscratch, 0);
    assert!(!nb.seie && !nb.ssie && !nb.stie);
    assert_eq!(nb.frame.reg[10], 1);
    assert_eq!(nb.frame.reg[11], 0x8220_0000);
}
