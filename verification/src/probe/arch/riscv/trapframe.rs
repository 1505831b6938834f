//! The registers that a trap saves.
use vstd::prelude::*;

verus! {

/// The saved state of the interrupted code: the integer registers `x0` to
/// `x31`, the status register and the program counter.
#[derive(Clone, Copy, Debug)]
pub struct TrapFrame {
    pub x: [usize; 32],
    pub sstatus: usize,
    pub sepc: usize,
}

pub fn get_trapframe_pc(tf: &TrapFrame) -> (pc: usize)
    ensures
        pc == tf.sepc,
{
    tf.sepc
}

pub fn set_trapframe_pc(tf: &mut TrapFrame, pc: usize)
    ensures
        *final(tf) == (TrapFrame { sepc: pc, ..*old(tf) }),
{
    tf.sepc = pc;
}

pub fn get_trapframe_ra(tf: &TrapFrame) -> (ra: usize)
    ensures
        ra == tf.x@[1],
{
    tf.x[1]
}

pub fn set_trapframe_ra(tf: &mut TrapFrame, ra: usize)
    ensures
        final(tf).x@ == old(tf).x@.update(1, ra),
        final(tf).sepc == old(tf).sepc,
        final(tf).sstatus == old(tf).sstatus,
{
    tf.x[1] = ra;
}

/// The value of a register as an instruction reads it: `x0` reads as zero.
pub open spec fn reg_value(tf: TrapFrame, reg: u32) -> usize {
    if reg == 0 {
        0
    } else {
        tf.x@[reg as int]
    }
}

/// The frame after an instruction wrote a register: a write to `x0` is lost.
pub open spec fn with_reg(tf: TrapFrame, reg: u32, val: usize) -> Seq<usize> {
    if reg == 0 {
        tf.x@
    } else {
        tf.x@.update(reg as int, val)
    }
}

pub fn get_reg(tf: &TrapFrame, reg: u32) -> (val: usize)
    requires
        reg < 32,
    ensures
        val == reg_value(*tf, reg),
{
    let index = reg as usize;
    if index != 0 {
        tf.x[index]
    } else {
        0
    }
}

pub fn set_reg(tf: &mut TrapFrame, reg: u32, val: usize)
    requires
        reg < 32,
    ensures
        final(tf).x@ == with_reg(*old(tf), reg, val),
        final(tf).sepc == old(tf).sepc,
        final(tf).sstatus == old(tf).sstatus,
{
    let index = reg as usize;
    if index != 0 {
        tf.x[index] = val;
    }
}

} // verus!
