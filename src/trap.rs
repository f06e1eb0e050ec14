//! The trap gateway's rules: which stack a trap frame goes on, what the frame
//! holds, how a call's result is written back, and where the return goes.
//! The register moves themselves are target assembly outside this library;
//! what they must do is stated here.
use vstd::prelude::*;

use crate::sbi::{call, call_spec, SBIErr, SBIRet};

verus! {

/// Size in bytes of a trap frame: the 32 general registers of a 64-bit hart.
pub const TRAP_FRAME_SIZE: usize = 256;

/// Physical address where the next boot stage starts, in supervisor mode.
pub const NEXT_STAGE_ENTRY: usize = 0x80200000;

/// Exception code of a call from supervisor mode.
pub const EXC_SUPERVISOR_CALL: usize = 9;

/// Interrupt code of the machine timer.
pub const IRQ_MACHINE_TIMER: usize = 7;

/// Interrupt code of the machine software interrupt, raised by another hart's
/// IPI.
pub const IRQ_MACHINE_SOFT: usize = 3;

/// The general registers of a hart at the moment of a trap, `reg[i]` holding
/// register `x<i>`.
pub struct TrapFrame {
    pub reg: [usize; 32],
}

/// What the gateway keeps of a register file: all of it but `x0`, which
/// always reads as zero.
pub open spec fn captured(regs: Seq<usize>) -> Seq<usize> {
    regs.update(0, 0)
}

impl TrapFrame {
    /// A frame with every register zero.
    pub fn new() -> (r: TrapFrame)
        ensures
            r.reg@ == Seq::new(32, |i: int| 0usize),
    {
        let r = TrapFrame { reg: [0usize; 32] };
        assert(r.reg@ =~= Seq::new(32, |i: int| 0usize));
        r
    }

    /// The frame saved on a trap taken with register file `regs`.
    pub fn capture(regs: [usize; 32]) -> (r: TrapFrame)
        ensures
            r.reg@ == captured(regs@),
    {
        let mut reg = regs;
        reg[0] = 0;
        TrapFrame { reg }
    }

    /// The register file restored from this frame on return.
    pub fn restore(&self) -> (r: [usize; 32])
        ensures
            r@ == captured(self.reg@),
    {
        let mut r = self.reg;
        r[0] = 0;
        r
    }
}

/// A trap that saves and then restores an untouched frame gives the hart back
/// exactly the registers it had.
pub proof fn lemma_capture_restore(regs: Seq<usize>)
    requires
        regs.len() == 32,
        regs[0] == 0,
    ensures
        captured(captured(regs)) == regs,
{
    assert(captured(captured(regs)) =~= regs);
}

/// Where the gateway places a trap frame.
#[derive(Clone, Copy, PartialEq, Eq, Structural, Debug)]
pub struct TrapEntry {
    /// Address of the frame's first byte.
    pub frame_addr: usize,
    /// Whether the trap came while a trap-handling stack was already in use.
    pub nested: bool,
    /// What the scratch register holds while the trap is handled: zero, the
    /// sign that a trap-handling stack is in use, so that a nested trap
    /// stays on it.
    pub scratch: usize,
}

pub open spec fn trap_entry_spec(mscratch: usize, sp: usize) -> Option<TrapEntry> {
    let top = if mscratch != 0 {
        mscratch
    } else {
        sp
    };
    if top < TRAP_FRAME_SIZE {
        None
    } else {
        Some(TrapEntry { frame_addr: (top - TRAP_FRAME_SIZE) as usize, nested: mscratch == 0, scratch: 0 })
    }
}

/// Picks the trap stack. A nonzero scratch register holds the top of this
/// hart's dispatch stack; zero means a trap is already being handled, and the
/// frame goes on the stack in use. `None` when that stack has no room for a
/// frame. The scratch register reads zero until the return re-arms it.
pub fn trap_entry(mscratch: usize, sp: usize) -> (r: Option<TrapEntry>)
    ensures
        r == trap_entry_spec(mscratch, sp),
{
    let top = if mscratch != 0 {
        mscratch
    } else {
        sp
    };
    if top < TRAP_FRAME_SIZE {
        None
    } else {
        Some(TrapEntry { frame_addr: top - TRAP_FRAME_SIZE, nested: mscratch == 0, scratch: 0 })
    }
}

/// The previous-privilege field of `mstatus` (bits 11 and 12); 3 is machine mode.
pub open spec fn spec_mpp(mstatus: usize) -> usize {
    (mstatus / 2048) % 4
}

/// The scratch register's value after returning from a trap whose frame is at
/// `frame_addr`: re-armed with the top of the dispatch stack when returning to
/// a lower privilege, left at zero when returning to machine mode so that the
/// trap handling already under way keeps its stack.
pub fn scratch_on_return(mstatus: usize, frame_addr: usize) -> (r: usize)
    requires
        frame_addr <= usize::MAX - TRAP_FRAME_SIZE,
    ensures
        spec_mpp(mstatus) == 3 ==> r == 0,
        spec_mpp(mstatus) != 3 ==> r == frame_addr + TRAP_FRAME_SIZE,
{
    if (mstatus / 2048) % 4 == 3 {
        0
    } else {
        frame_addr + TRAP_FRAME_SIZE
    }
}

/// A raw trap cause: interrupt or exception, with its code.
#[derive(Clone, Copy, PartialEq, Eq, Structural, Debug)]
pub enum TrapCause {
    Interrupt(usize),
    Exception(usize),
}

/// The cause held in a 64-bit `mcause` value: bit 63 set for an interrupt,
/// the code in the bits below.
pub open spec fn spec_trap_cause(bits: usize) -> TrapCause {
    if bits as int >= 0x8000_0000_0000_0000 {
        TrapCause::Interrupt((bits as int - 0x8000_0000_0000_0000) as usize)
    } else {
        TrapCause::Exception(bits)
    }
}

/// Relies on riscv's `Mcause::from_bits` and `Mcause::cause`: on a 64-bit
/// word, bit 63 tells an interrupt from an exception and bits 0 to 62 are the
/// code.
#[verifier::external_body]
fn decode_mcause(bits: usize) -> (r: TrapCause)
    requires
        usize::MAX == 0xffff_ffff_ffff_ffff,
    ensures
        r == spec_trap_cause(bits),
{
    match riscv::register::mcause::Mcause::from_bits(bits).cause() {
        riscv::interrupt::Trap::Interrupt(code) => TrapCause::Interrupt(code),
        riscv::interrupt::Trap::Exception(code) => TrapCause::Exception(code),
    }
}

/// What the gateway does with a trap.
#[derive(Clone, Copy, PartialEq, Eq, Structural, Debug)]
pub enum TrapAction {
    /// A supervisor call: carry out this action, then `finish_call`.
    Call(crate::sbi::SbiAction),
    /// The machine timer fired: hand it to the supervisor as its virtual
    /// timer-pending bit and mask the machine timer.
    ForwardTimer,
    /// Another hart sent an IPI: serve this hart's slot (`ipi::serve`).
    ServeIpi,
    /// Any other cause (or an `mcause` this 32-bit word cannot decode): fatal.
    Unhandled(usize),
}

pub open spec fn trap_action_spec(tf: Seq<usize>, mcause: usize) -> TrapAction {
    if spec_trap_cause(mcause) == TrapCause::Exception(EXC_SUPERVISOR_CALL) {
        TrapAction::Call(call_spec(tf[17], tf[16], tf[10], tf[11], tf[12]))
    } else if spec_trap_cause(mcause) == TrapCause::Interrupt(IRQ_MACHINE_TIMER) {
        TrapAction::ForwardTimer
    } else if spec_trap_cause(mcause) == TrapCause::Interrupt(IRQ_MACHINE_SOFT) {
        TrapAction::ServeIpi
    } else {
        TrapAction::Unhandled(mcause)
    }
}

/// Decides what to do with a trap of cause `mcause` whose registers are in
/// `tf`. A supervisor call takes its extension from `a7` (`x17`), its function
/// from `a6` (`x16`) and its arguments from `a0` to `a2` (`x10` to `x12`).
pub fn wrapped_trap(tf: &TrapFrame, mcause: usize) -> (r: TrapAction)
    ensures
        usize::MAX == 0xffff_ffff_ffff_ffff ==> r == trap_action_spec(tf.reg@, mcause),
        usize::MAX != 0xffff_ffff_ffff_ffff ==> r == TrapAction::Unhandled(mcause),
{
    if usize::BITS != 64 {
        return TrapAction::Unhandled(mcause);
    }
    let cause = decode_mcause(mcause);
    if cause == TrapCause::Exception(EXC_SUPERVISOR_CALL) {
        TrapAction::Call(call(tf.reg[17], tf.reg[16], tf.reg[10], tf.reg[11], tf.reg[12]))
    } else if cause == TrapCause::Interrupt(IRQ_MACHINE_TIMER) {
        TrapAction::ForwardTimer
    } else if cause == TrapCause::Interrupt(IRQ_MACHINE_SOFT) {
        TrapAction::ServeIpi
    } else {
        TrapAction::Unhandled(mcause)
    }
}

/// Registers after writing a call's result: a legacy result puts its value in
/// `a0` alone; every other result puts its code in `a0` and its value in `a1`.
pub open spec fn result_regs(regs: Seq<usize>, ret: SBIRet) -> Seq<usize> {
    if ret.error == SBIErr::Legacy {
        regs.update(10, ret.value)
    } else {
        regs.update(10, ret.error.spec_code() as usize).update(11, ret.value)
    }
}

/// Writes a call's result into the frame and returns the address to resume
/// at: the instruction after the 4-byte call instruction at `mepc` (wrapping
/// at the top of the address space, as the hardware does).
pub fn finish_call(tf: &mut TrapFrame, ret: SBIRet, mepc: usize) -> (r: usize)
    ensures
        final(tf).reg@ == result_regs(old(tf).reg@, ret),
        mepc <= usize::MAX - 4 ==> r == mepc + 4,
        mepc > usize::MAX - 4 ==> r == mepc - (usize::MAX - 3),
{
    if ret.error == SBIErr::Legacy {
        tf.reg[10] = ret.value;
    } else {
        tf.reg[10] = ret.error.code() as usize;
        tf.reg[11] = ret.value;
    }
    if mepc > usize::MAX - 4 {
        mepc - (usize::MAX - 3)
    } else {
        mepc + 4
    }
}

/// The frame that the first entry into the next boot stage returns through:
/// every register zero but `a0`, the hart's identifier, and `a1`, the
/// device-tree address.
pub fn next_ret(hartid: usize, fdt_addr: usize) -> (r: TrapFrame)
    ensures
        r.reg@ == Seq::new(32, |i: int| 0usize).update(10, hartid).update(11, fdt_addr),
{
    let mut tf = TrapFrame::new();
    tf.reg[10] = hartid;
    tf.reg[11] = fdt_addr;
    tf
}

} // verus!
