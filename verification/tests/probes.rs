use kernel_ebpf::probe::arch::riscv::breakpoint::{
    alloc_breakpoint, free_breakpoint, inject_breakpoints, BreakpointPool, BREAKPOINTS_PER_PAGE,
};
use kernel_ebpf::probe::arch::riscv::trapframe::{
    get_reg, get_trapframe_pc, get_trapframe_ra, set_reg, set_trapframe_pc, set_trapframe_ra,
    TrapFrame,
};
use kernel_ebpf::probe::arch::riscv::{
    emulate_execution, get_insn_length, get_insn_type, get_jump_op, sign_extend, signed_lt,
    InsnOp, InstructionBuffer,
};
use kernel_ebpf::probe::kprobes::{
    kprobe_trap_handler, register_kprobe as register_at, register_kprobe_with_symbol,
    unregister_kprobe as unregister_at, unregister_kprobe_with_symbol, Handler, KProbes,
    PreHandler, ProbeSite, SingleStepType,
};
use kernel_ebpf::probe::kretprobes::{
    register_kretprobe_with_symbol, unregister_kretprobe_with_symbol, KRetProbeInstance,
    KRetProbes,
};
use kernel_ebpf::probe::osutils::{symbol_to_addr, KernelOp, PAGE_SIZE};
use kernel_ebpf::probe::{
    kprobes_breakpoint_handler, register_kprobe, register_kretprobe, unregister_kprobe,
    unregister_kretprobe, KProbeArgs, KRetProbeArgs, Probes,
};
use std::cell::RefCell;
use std::rc::Rc;

const ADD: u32 = 0x00c58633; // add x12, x11, x12
const JAL_RA_8: u32 = 0x008000ef; // jal ra, +8
const JAL_BACK_4: u32 = 0xffdff06f; // jal x0, -4
const RET: u32 = 0x00008067; // jalr x0, 0(ra)
const JALR_A0_M4: u32 = 0xffc500e7; // jalr ra, -4(a0)
const BEQ_16: u32 = 0x00b50863; // beq a0, a1, +16
const BNE_16: u32 = 0x00b51863; // bne a0, a1, +16
const BLT_16: u32 = 0x00b54863; // blt a0, a1, +16
const BGE_16: u32 = 0x00b55863; // bge a0, a1, +16
const BLTU_16: u32 = 0x00b56863; // bltu a0, a1, +16
const BGEU_16: u32 = 0x00b57863; // bgeu a0, a1, +16
const AUIPC_A0_1: u32 = 0x00001517; // auipc a0, 0x1
const C_J_0: u32 = 0xa001; // c.j +0
const C_JR_RA: u32 = 0x8082; // c.jr ra
const C_JALR_A0: u32 = 0x9502; // c.jalr a0
const C_BEQZ_A0_0: u32 = 0xc101; // c.beqz a0, +0
const C_BNEZ_A0_0: u32 = 0xe101; // c.bnez a0, +0
const C_LD: u32 = 0x6188; // c.ld a0, 0(a1)
const C_ADDI: u32 = 0x1141; // c.addi sp, sp, -16
const C_EBREAK: u32 = 0x9002;

fn frame(pc: usize) -> TrapFrame {
    let mut x = [0usize; 32];
    for (i, slot) in x.iter_mut().enumerate() {
        *slot = 0x1000 * i;
    }
    TrapFrame { x, sstatus: 0x55, sepc: pc }
}

#[derive(Clone)]
struct Recorder {
    name: &'static str,
    log: Rc<RefCell<Vec<(&'static str, usize, usize)>>>,
    set_a0: Option<usize>,
}

impl Handler for Recorder {
    fn call(&self, tf: &mut TrapFrame, data: usize) -> isize {
        self.log.borrow_mut().push((self.name, tf.sepc, data));
        if let Some(v) = self.set_a0 {
            tf.x[10] = v;
        }
        0
    }
}

fn recorder(name: &'static str, log: &Rc<RefCell<Vec<(&'static str, usize, usize)>>>) -> Recorder {
    Recorder { name, log: log.clone(), set_a0: None }
}

#[test]
fn trapframe_accessors() {
    let mut tf = frame(0x8020_0000);
    assert_eq!(get_trapframe_pc(&tf), 0x8020_0000);
    set_trapframe_pc(&mut tf, 0x8020_0004);
    assert_eq!(tf.sepc, 0x8020_0004);
    assert_eq!(get_trapframe_ra(&tf), 0x1000);
    set_trapframe_ra(&mut tf, 0x77);
    assert_eq!(tf.x[1], 0x77);
    assert_eq!(get_reg(&tf, 0), 0);
    tf.x[0] = 5;
    assert_eq!(get_reg(&tf, 0), 0);
    assert_eq!(get_reg(&tf, 31), 0x1f000);
    set_reg(&mut tf, 0, 9);
    assert_eq!(tf.x[0], 5);
    set_reg(&mut tf, 7, 9);
    assert_eq!(tf.x[7], 9);
    assert_eq!(tf.sstatus, 0x55);
}

#[test]
fn instruction_lengths() {
    assert_eq!(get_insn_length(0x8082), 2);
    assert_eq!(get_insn_length(0x0001), 2);
    assert_eq!(get_insn_length(0x8633), 4);
    assert_eq!(get_insn_length(0x006f), 4);
    assert_eq!(get_insn_length(0x001f), 6);
    assert_eq!(get_insn_length(0x003f), 10);
    assert_eq!(get_insn_length(0x707f), 24);
}

#[test]
fn jumps_and_branches_are_told_by_their_bits() {
    assert_eq!(get_jump_op(ADD), None);
    assert_eq!(get_jump_op(JAL_RA_8), Some(InsnOp::Jal));
    assert_eq!(get_jump_op(RET), Some(InsnOp::Jalr));
    assert_eq!(get_jump_op(BEQ_16), Some(InsnOp::Beq));
    assert_eq!(get_jump_op(BNE_16), Some(InsnOp::Bne));
    assert_eq!(get_jump_op(BLT_16), Some(InsnOp::Blt));
    assert_eq!(get_jump_op(BGE_16), Some(InsnOp::Bge));
    assert_eq!(get_jump_op(BLTU_16), Some(InsnOp::Bltu));
    assert_eq!(get_jump_op(BGEU_16), Some(InsnOp::Bgeu));
    assert_eq!(get_jump_op(0x00b52863), None);
    assert_eq!(get_jump_op(AUIPC_A0_1), Some(InsnOp::Auipc));
    assert_eq!(get_jump_op(C_J_0), Some(InsnOp::CJ));
    assert_eq!(get_jump_op(C_JR_RA), Some(InsnOp::CJr));
    assert_eq!(get_jump_op(C_JALR_A0), Some(InsnOp::CJalr));
    assert_eq!(get_jump_op(C_BEQZ_A0_0), Some(InsnOp::CBeqz));
    assert_eq!(get_jump_op(C_BNEZ_A0_0), Some(InsnOp::CBnez));
    assert_eq!(get_jump_op(C_EBREAK), None);
    assert_eq!(get_jump_op(0x8002), None);
    assert_eq!(get_jump_op(C_LD), None);
    // the upper half belongs to the next instruction
    assert_eq!(get_jump_op(0x006f_8082), Some(InsnOp::CJr));
}

#[test]
fn step_types() {
    assert_eq!(get_insn_type(ADD), SingleStepType::Execute);
    assert_eq!(get_insn_type(0x00000013), SingleStepType::Execute); // nop
    assert_eq!(get_insn_type(JAL_RA_8), SingleStepType::Emulate);
    assert_eq!(get_insn_type(JAL_BACK_4), SingleStepType::Emulate);
    assert_eq!(get_insn_type(RET), SingleStepType::Emulate);
    assert_eq!(get_insn_type(BEQ_16), SingleStepType::Emulate);
    assert_eq!(get_insn_type(BGEU_16), SingleStepType::Emulate);
    assert_eq!(get_insn_type(AUIPC_A0_1), SingleStepType::Emulate);
    assert_eq!(get_insn_type(C_J_0), SingleStepType::Emulate);
    assert_eq!(get_insn_type(C_JR_RA), SingleStepType::Emulate);
    assert_eq!(get_insn_type(C_BNEZ_A0_0), SingleStepType::Emulate);
    // a compressed load that the decoder knows, with another instruction behind it
    assert_eq!(get_insn_type(0x8633_0000 | C_LD), SingleStepType::Execute);
    // an instruction that the decoder does not know
    assert_eq!(get_insn_type(C_ADDI), SingleStepType::Unsupported);
    assert_eq!(get_insn_type(0x00b52863), SingleStepType::Unsupported);
    assert_eq!(get_insn_type(0x0000000b), SingleStepType::Unsupported); // custom-0
    // longer than four bytes
    assert_eq!(get_insn_type(0x0000001f), SingleStepType::Unsupported);
}

#[test]
fn sign_extension() {
    assert_eq!(sign_extend(0, 0x800), 0);
    assert_eq!(sign_extend(0x7ff, 0x800), 0x7ff);
    assert_eq!(sign_extend(0x800, 0x800), -0x800);
    assert_eq!(sign_extend(0xfff, 0x800), -1);
    assert_eq!(sign_extend(0x1f_fffc, 0x10_0000), -4);
    assert_eq!(sign_extend(0xffff_f000, 0x8000_0000), -0x1000);
    assert_eq!(sign_extend(0x8000_0000, 0x8000_0000), -0x8000_0000);
    assert!(signed_lt(usize::MAX, 0));
    assert!(!signed_lt(0, usize::MAX));
    assert!(signed_lt(3, 4));
    assert!(!signed_lt(4, 4));
    assert!(signed_lt(usize::MAX - 1, usize::MAX));
}

#[test]
fn emulate_jal_and_jalr() {
    let pc = 0x8020_0100;
    let mut tf = frame(pc);
    emulate_execution(&mut tf, JAL_RA_8, pc);
    assert_eq!(tf.sepc, pc + 8);
    assert_eq!(tf.x[1], pc + 4);

    let mut tf = frame(pc);
    emulate_execution(&mut tf, JAL_BACK_4, pc);
    assert_eq!(tf.sepc, pc - 4);
    assert_eq!(tf.x, frame(pc).x);

    let mut tf = frame(pc);
    tf.x[1] = 0x8020_0abc;
    emulate_execution(&mut tf, RET, pc);
    assert_eq!(tf.sepc, 0x8020_0abc);
    assert_eq!(tf.x[1], 0x8020_0abc);

    let mut tf = frame(pc);
    tf.x[10] = 0x9000;
    emulate_execution(&mut tf, JALR_A0_M4, pc);
    assert_eq!(tf.sepc, 0x8ffc);
    assert_eq!(tf.x[1], pc + 4);
    assert_eq!(tf.sstatus, 0x55);

    // jalr ra, 0(ra): the target is read before the link is written
    let mut tf = frame(pc);
    tf.x[1] = 0x4444;
    emulate_execution(&mut tf, 0x000080e7, pc);
    assert_eq!(tf.sepc, 0x4444);
    assert_eq!(tf.x[1], pc + 4);
}

fn branch(insn: u32, a: usize, b: usize) -> usize {
    let pc = 0x1000;
    let mut tf = frame(pc);
    tf.x[10] = a;
    tf.x[11] = b;
    let regs = tf.x;
    emulate_execution(&mut tf, insn, pc);
    assert_eq!(tf.x, regs);
    tf.sepc - pc
}

#[test]
fn emulate_branches() {
    assert_eq!(branch(BEQ_16, 5, 5), 16);
    assert_eq!(branch(BEQ_16, 5, 6), 4);
    assert_eq!(branch(BNE_16, 5, 5), 4);
    assert_eq!(branch(BNE_16, 5, 6), 16);
    assert_eq!(branch(BLT_16, usize::MAX, 1), 16);
    assert_eq!(branch(BLT_16, 1, usize::MAX), 4);
    assert_eq!(branch(BGE_16, 1, usize::MAX), 16);
    assert_eq!(branch(BGE_16, 7, 7), 16);
    assert_eq!(branch(BGE_16, usize::MAX, 1), 4);
    assert_eq!(branch(BLTU_16, 1, usize::MAX), 16);
    assert_eq!(branch(BLTU_16, usize::MAX, 1), 4);
    assert_eq!(branch(BGEU_16, usize::MAX, 1), 16);
    assert_eq!(branch(BGEU_16, 1, 2), 4);
    // beq a0, a1, -8
    let mut tf = frame(0x1000);
    tf.x[10] = 1;
    tf.x[11] = 1;
    emulate_execution(&mut tf, 0xfeb50ce3, 0x1000);
    assert_eq!(tf.sepc, 0x1000 - 8);
}

#[test]
fn emulate_auipc() {
    let pc = 0x8020_0100;
    let mut tf = frame(pc);
    emulate_execution(&mut tf, AUIPC_A0_1, pc);
    assert_eq!(tf.sepc, pc + 4);
    assert_eq!(tf.x[10], pc + 0x1000);
    let mut tf = frame(pc);
    emulate_execution(&mut tf, 0xfffff517, pc); // auipc a0, 0xfffff
    assert_eq!(tf.x[10], pc - 0x1000);
}

#[test]
fn emulate_compressed() {
    let pc = 0x2000;
    let mut tf = frame(pc);
    emulate_execution(&mut tf, C_J_0, pc);
    assert_eq!(tf.sepc, pc);
    // c.j -2 and c.j +2046
    let mut tf = frame(pc);
    emulate_execution(&mut tf, 0xbffd, pc);
    assert_eq!(tf.sepc, pc - 2);
    let mut tf = frame(pc);
    emulate_execution(&mut tf, 0xaffd, pc);
    assert_eq!(tf.sepc, pc + 2046);
    // c.j +8
    let mut tf = frame(pc);
    emulate_execution(&mut tf, 0xa021, pc);
    assert_eq!(tf.sepc, pc + 8);

    let mut tf = frame(pc);
    tf.x[1] = 0x1234;
    emulate_execution(&mut tf, C_JR_RA, pc);
    assert_eq!(tf.sepc, 0x1234);
    assert_eq!(tf.x[1], 0x1234);

    let mut tf = frame(pc);
    tf.x[10] = 0x4000;
    emulate_execution(&mut tf, C_JALR_A0, pc);
    assert_eq!(tf.sepc, 0x4000);
    assert_eq!(tf.x[1], pc + 2);

    // c.beqz a0, +4: 0xc111; c.bnez a0, -2: 0xfd7d
    let mut tf = frame(pc);
    tf.x[10] = 0;
    emulate_execution(&mut tf, 0xc111, pc);
    assert_eq!(tf.sepc, pc + 4);
    let mut tf = frame(pc);
    tf.x[10] = 3;
    emulate_execution(&mut tf, 0xc111, pc);
    assert_eq!(tf.sepc, pc + 2);
    let mut tf = frame(pc);
    tf.x[10] = 3;
    emulate_execution(&mut tf, 0xfd7d, pc);
    assert_eq!(tf.sepc, pc - 2);
    let mut tf = frame(pc);
    tf.x[10] = 0;
    emulate_execution(&mut tf, 0xfd7d, pc);
    assert_eq!(tf.sepc, pc + 2);
}

#[test]
fn breakpoints_and_buffers_say_what_to_write() {
    let mut ops = Vec::new();
    inject_breakpoints(&mut ops, 0x100, None);
    inject_breakpoints(&mut ops, 0x200, Some(4));
    inject_breakpoints(&mut ops, 0x300, Some(0));
    let buf = InstructionBuffer::new(0x9000);
    assert_eq!(buf.addr(), 0x9000);
    buf.copy_in(&mut ops, 0, 0x8000, 4);
    buf.copy_out(&mut ops, 2, 0x8000, 2);
    buf.add_breakpoint(&mut ops, 4);
    buf.release(&mut ops);
    assert_eq!(
        ops,
        vec![
            KernelOp::Breakpoints { addr: 0x100, count: 1 },
            KernelOp::Breakpoints { addr: 0x200, count: 2 },
            KernelOp::Breakpoints { addr: 0x300, count: 0 },
            KernelOp::Copy { dst: 0x9000, src: 0x8000, len: 4 },
            KernelOp::Copy { dst: 0x8000, src: 0x9002, len: 2 },
            KernelOp::Breakpoints { addr: 0x9004, count: 1 },
            KernelOp::FreePage { addr: 0x9000 },
        ]
    );
    assert_eq!(PAGE_SIZE, 4096);
    assert_eq!(symbol_to_addr("sys_open"), None);
}

#[test]
fn pool_hands_out_each_slot_once() {
    let mut pool = BreakpointPool::new();
    let mut ops = Vec::new();
    let (first, took) = alloc_breakpoint(&mut pool, 0x10000, &mut ops);
    assert_eq!((first, took), (0x10000, true));
    assert_eq!(ops, vec![KernelOp::Breakpoints { addr: 0x10000, count: 2048 }]);
    assert!(pool.contains_page(0x10000));
    assert!(!pool.contains_page(0x20000));
    let mut seen = vec![first];
    for i in 1..BREAKPOINTS_PER_PAGE {
        let (slot, took) = alloc_breakpoint(&mut pool, 0x20000, &mut ops);
        assert!(!took);
        assert_eq!(slot, 0x10000 + 2 * i);
        seen.push(slot);
    }
    assert_eq!(ops.len(), 1);
    let (slot, took) = alloc_breakpoint(&mut pool, 0x20000, &mut ops);
    assert_eq!((slot, took), (0x20000, true));
    assert_eq!(ops.len(), 2);
    // a slot that was given back is the next to go out
    free_breakpoint(&mut pool, 0x10000 + 10, &mut ops);
    free_breakpoint(&mut pool, 0x10000 + 10, &mut ops);
    free_breakpoint(&mut pool, 0x10000 + 11, &mut ops);
    free_breakpoint(&mut pool, 0x30000, &mut ops);
    assert_eq!(alloc_breakpoint(&mut pool, 0x30000, &mut ops), (0x10000 + 10, false));
    assert_eq!(ops.len(), 2);
}

#[test]
fn pool_lets_empty_pages_go_but_the_last() {
    let mut pool = BreakpointPool::new();
    let mut ops = Vec::new();
    let (a, _) = alloc_breakpoint(&mut pool, 0x10000, &mut ops);
    free_breakpoint(&mut pool, a, &mut ops);
    assert!(pool.contains_page(0x10000));
    assert_eq!(ops.len(), 1);
    // fill the first page, take a second, then empty the second
    for _ in 0..BREAKPOINTS_PER_PAGE {
        alloc_breakpoint(&mut pool, 0x20000, &mut ops);
    }
    let (b, took) = alloc_breakpoint(&mut pool, 0x20000, &mut ops);
    assert_eq!((b, took), (0x20000, true));
    ops.clear();
    free_breakpoint(&mut pool, b, &mut ops);
    assert_eq!(ops, vec![KernelOp::FreePage { addr: 0x20000 }]);
    assert!(!pool.contains_page(0x20000));
    assert!(pool.contains_page(0x10000));
}

#[test]
fn probe_on_an_add_runs_both_handlers_once() {
    let log = Rc::new(RefCell::new(Vec::new()));
    let mut probes: Probes<Recorder> = Probes::new();
    let mut ops = Vec::new();
    let addr = 0x8020_7b4a;
    let args = KProbeArgs {
        pre_handler: recorder("pre", &log),
        post_handler: Some(recorder("post", &log)),
        user_data: 42,
    };
    let site = ProbeSite { insn: ADD, buf: 0x9000_0000 };
    assert_eq!(register_kprobe(&mut probes, addr, args, site, &mut ops), Some(()));
    assert_eq!(
        ops,
        vec![
            KernelOp::Copy { dst: 0x9000_0000, src: addr, len: 4 },
            KernelOp::Breakpoints { addr: 0x9000_0004, count: 1 },
            KernelOp::Breakpoints { addr, count: 2 },
            KernelOp::FlushICache,
        ]
    );
    ops.clear();

    // the function is called: its first instruction traps
    let mut tf = frame(addr);
    let regs = tf.x;
    assert!(!kprobes_breakpoint_handler(&mut probes, &mut tf, 0xa000_0000, &mut ops));
    assert_eq!(tf.sepc, 0x9000_0000);
    assert_eq!(*log.borrow(), vec![("pre", addr, 42)]);
    assert_eq!(probes.kprobes.map[&addr].active_count, 1);
    // a probe that is being stepped over cannot be removed
    assert_eq!(unregister_kprobe(&mut probes, addr, &mut ops), None);

    // the add runs from the buffer, and the breakpoint behind it traps
    tf.sepc = 0x9000_0004;
    assert!(!kprobes_breakpoint_handler(&mut probes, &mut tf, 0xa000_0000, &mut ops));
    assert_eq!(tf.sepc, addr + 4);
    assert_eq!(tf.x, regs);
    assert_eq!(*log.borrow(), vec![("pre", addr, 42), ("post", 0x9000_0004, 42)]);
    assert_eq!(probes.kprobes.map[&addr].active_count, 0);
    assert!(ops.is_empty());

    assert_eq!(unregister_kprobe(&mut probes, addr, &mut ops), Some(()));
    assert_eq!(
        ops,
        vec![
            KernelOp::Copy { dst: addr, src: 0x9000_0000, len: 4 },
            KernelOp::FlushICache,
            KernelOp::FreePage { addr: 0x9000_0000 },
        ]
    );
    assert_eq!(unregister_kprobe(&mut probes, addr, &mut ops), None);
    // no probe: the breakpoint is nobody's
    let mut tf = frame(addr);
    let before = tf;
    assert!(!kprobes_breakpoint_handler(&mut probes, &mut tf, 0xa000_0000, &mut ops));
    assert_eq!(tf.sepc, before.sepc);
    assert_eq!(tf.x, before.x);
    assert_eq!(log.borrow().len(), 2);
}

#[test]
fn what_handlers_write_stays_in_the_registers() {
    let log = Rc::new(RefCell::new(Vec::new()));
    let mut probes: Probes<Recorder> = Probes::new();
    let mut ops = Vec::new();
    let addr = 0x8020_0000;
    let args = KProbeArgs {
        pre_handler: Recorder { name: "pre", log: log.clone(), set_a0: Some(7) },
        post_handler: Some(Recorder { name: "post", log: log.clone(), set_a0: Some(9) }),
        user_data: 3,
    };
    let site = ProbeSite { insn: ADD, buf: 0x9000_0000 };
    assert_eq!(register_kprobe(&mut probes, addr, args, site, &mut ops), Some(()));

    let mut tf = frame(addr);
    let mut regs = tf.x;
    assert!(!kprobes_breakpoint_handler(&mut probes, &mut tf, 0xa000_0000, &mut ops));
    regs[10] = 7;
    assert_eq!(tf.x, regs);
    assert_eq!(tf.sepc, 0x9000_0000);
    assert_eq!(tf.sstatus, 0x55);

    tf.sepc = 0x9000_0004;
    assert!(!kprobes_breakpoint_handler(&mut probes, &mut tf, 0xa000_0000, &mut ops));
    regs[10] = 9;
    assert_eq!(tf.x, regs);
    assert_eq!(tf.sepc, addr + 4);
    assert_eq!(*log.borrow(), vec![("pre", addr, 3), ("post", 0x9000_0004, 3)]);
}

#[test]
fn an_entry_handler_runs_before_the_return_address_is_saved() {
    let log = Rc::new(RefCell::new(Vec::new()));
    let mut probes: Probes<Recorder> = Probes::new();
    let mut ops = Vec::new();
    let entry = 0x8020_1000;
    let args = KRetProbeArgs {
        exit_handler: Recorder { name: "exit", log: log.clone(), set_a0: Some(5) },
        entry_handler: Some(Recorder { name: "entry", log: log.clone(), set_a0: Some(4) }),
        limit: None,
        user_data: 8,
    };
    let site = ProbeSite { insn: ADD, buf: 0x9000_0000 };
    assert_eq!(register_kretprobe(&mut probes, entry, args, site, &mut ops), Some(()));

    let mut tf = frame(entry);
    let caller = tf.x[1];
    let mut regs = tf.x;
    assert!(kprobes_breakpoint_handler(&mut probes, &mut tf, 0xa000_0000, &mut ops));
    let slot = tf.x[1];
    assert_eq!(slot / PAGE_SIZE * PAGE_SIZE, 0xa000_0000);
    regs[10] = 4;
    regs[1] = slot;
    assert_eq!(tf.x, regs);
    assert_eq!(tf.sepc, 0x9000_0000);
    assert_eq!(
        probes.kretprobes.instances[&slot],
        KRetProbeInstance { entry_addr: entry, ret_addr: caller }
    );
    assert_eq!(probes.kretprobes.map[&entry].nr_instances, 1);

    // the function returns to its slot
    tf.sepc = slot;
    assert!(!kprobes_breakpoint_handler(&mut probes, &mut tf, 0xb000_0000, &mut ops));
    regs[10] = 5;
    regs[1] = caller;
    assert_eq!(tf.x, regs);
    assert_eq!(tf.sepc, caller);
    assert!(probes.kretprobes.instances.is_empty());
    assert_eq!(probes.kretprobes.map[&entry].nr_instances, 0);
    assert_eq!(*log.borrow(), vec![("entry", entry, 8), ("exit", slot, 8)]);
}

#[test]
fn probe_on_a_jump_is_emulated() {
    let log = Rc::new(RefCell::new(Vec::new()));
    let mut kprobes: KProbes<Recorder> = KProbes::new();
    let mut kret: KRetProbes<Recorder> = KRetProbes::new();
    let mut pool = BreakpointPool::new();
    let mut ops = Vec::new();
    let addr = 0x8000_1000;
    let mut pre = recorder("pre", &log);
    pre.set_a0 = Some(0x8000_5000);
    let args = KProbeArgs { pre_handler: pre, post_handler: Some(recorder("post", &log)), user_data: 1 };
    // jalr ra, -4(a0)
    let site = ProbeSite { insn: JALR_A0_M4, buf: 0x9000_0000 };
    assert!(register_at(&mut kprobes, addr, args, site, &mut ops));
    assert!(kprobes.map[&addr].emulate);
    // an instruction that is emulated never runs from the buffer: no way back
    assert!(kprobes.addr_map.is_empty());
    let mut tf = frame(addr);
    let r = kprobe_trap_handler(&mut kprobes, &mut kret, &mut pool, &mut tf, 0xa000_0000, &mut ops);
    assert_eq!(r, (true, false));
    // the handler changed a0 before the jump read it
    assert_eq!(tf.sepc, 0x8000_5000 - 4);
    assert_eq!(tf.x[1], addr + 4);
    assert_eq!(*log.borrow(), vec![("pre", addr, 1), ("post", 0x8000_5000 - 4, 1)]);
    assert_eq!(kprobes.map[&addr].active_count, 0);
    assert!(unregister_at(&mut kprobes, addr, &mut ops));
}

#[test]
fn registration_is_refused_with_the_page_given_back() {
    let log = Rc::new(RefCell::new(Vec::new()));
    let mut probes: Probes<Recorder> = Probes::new();
    let mut ops = Vec::new();
    let site = ProbeSite { insn: ADD, buf: 0x9000_0000 };
    assert!(register_kprobe(&mut probes, 0x1000, KProbeArgs::from(recorder("a", &log)), site, &mut ops)
        .is_some());
    ops.clear();
    // a second probe at the same address
    let other = ProbeSite { insn: ADD, buf: 0x9000_1000 };
    assert_eq!(
        register_kprobe(&mut probes, 0x1000, KProbeArgs::from(recorder("b", &log)), other, &mut ops),
        None
    );
    assert_eq!(ops, vec![KernelOp::FreePage { addr: 0x9000_1000 }]);
    ops.clear();
    // an instruction that cannot be stepped over
    let bad = ProbeSite { insn: C_ADDI, buf: 0x9000_2000 };
    assert_eq!(
        register_kprobe(&mut probes, 0x2000, KProbeArgs::from(recorder("c", &log)), bad, &mut ops),
        None
    );
    assert_eq!(ops, vec![KernelOp::FreePage { addr: 0x9000_2000 }]);
    ops.clear();
    // the buffer of another probe
    assert_eq!(
        register_kprobe(&mut probes, 0x3000, KProbeArgs::from(recorder("d", &log)), site, &mut ops),
        None
    );
    // a probe at the end of the address space
    let top = ProbeSite { insn: ADD, buf: 0x9000_3000 };
    assert_eq!(
        register_kprobe(&mut probes, usize::MAX - 1, KProbeArgs::from(recorder("e", &log)), top, &mut ops),
        None
    );
    assert_eq!(probes.kprobes.map.len(), 1);
    assert_eq!(probes.kprobes.addr_map[&0x9000_0004], 0x1000);
    let args = KProbeArgs::from(recorder("f", &log));
    assert!(args.post_handler.is_none());
    assert_eq!(args.user_data, 0);
}

/// A page that the pool does not have yet.
fn spare(probes: &Probes<Recorder>) -> usize {
    let mut page = 0xa000_0000;
    while probes.breakpoints.contains_page(page) {
        page += PAGE_SIZE;
    }
    page
}

fn recurse(probes: &mut Probes<Recorder>, entry: usize, depth: usize, caller: usize, ops: &mut Vec<KernelOp>) {
    // call: ra holds the caller, the first instruction traps
    let mut tf = frame(entry);
    tf.x[1] = caller;
    let page = spare(probes);
    kprobes_breakpoint_handler(probes, &mut tf, page, ops);
    assert_eq!(tf.sepc, 0x9000_0000);
    let ra = tf.x[1];
    tf.sepc = 0x9000_0004;
    let page = spare(probes);
    kprobes_breakpoint_handler(probes, &mut tf, page, ops);
    assert_eq!(tf.sepc, entry + 4);
    if depth > 1 {
        recurse(probes, entry, depth - 1, entry + 0x20, ops);
    }
    // return: jump to ra, which is the caller where the call was missed
    let mut tf = frame(ra);
    tf.x[1] = ra;
    let page = spare(probes);
    kprobes_breakpoint_handler(probes, &mut tf, page, ops);
    assert_eq!(tf.sepc, caller);
    assert_eq!(tf.x[1], caller);
}

fn run_recursion(limit: Option<usize>) -> (usize, usize, usize) {
    let log = Rc::new(RefCell::new(Vec::new()));
    let mut probes: Probes<Recorder> = Probes::new();
    let mut ops = Vec::new();
    let entry = 0x8020_0000;
    let args = KRetProbeArgs {
        exit_handler: recorder("exit", &log),
        entry_handler: Some(recorder("entry", &log)),
        limit,
        user_data: 7,
    };
    let site = ProbeSite { insn: ADD, buf: 0x9000_0000 };
    assert_eq!(register_kretprobe(&mut probes, entry, args, site, &mut ops), Some(()));
    recurse(&mut probes, entry, 5, 0x8000_0000, &mut ops);
    let exits = log.borrow().iter().filter(|e| e.0 == "exit").count();
    let entries = log.borrow().iter().filter(|e| e.0 == "entry").count();
    let probe = &probes.kretprobes.map[&entry];
    assert_eq!(probe.nr_instances, 0);
    assert!(probes.kretprobes.instances.is_empty());
    let misses = probe.nr_misses;
    assert_eq!(unregister_kretprobe(&mut probes, entry, &mut ops), Some(()));
    assert!(probes.kprobes.map.is_empty());
    assert!(probes.kretprobes.map.is_empty());
    (entries, exits, misses)
}

#[test]
fn return_probe_on_a_recursive_function() {
    assert_eq!(run_recursion(None), (5, 5, 0));
    assert_eq!(run_recursion(Some(2)), (2, 2, 3));
    assert_eq!(run_recursion(Some(0)), (0, 0, 5));
}

#[test]
fn return_probe_keeps_calls_in_flight_apart() {
    let log = Rc::new(RefCell::new(Vec::new()));
    let mut probes: Probes<Recorder> = Probes::new();
    let mut ops = Vec::new();
    let entry = 0x8020_0000;
    let site = ProbeSite { insn: ADD, buf: 0x9000_0000 };
    let args = KRetProbeArgs::from(recorder("exit", &log));
    assert!(args.entry_handler.is_none() && args.limit.is_none());
    assert_eq!(register_kretprobe(&mut probes, entry, args, site, &mut ops), Some(()));
    assert!(matches!(probes.kprobes.map[&entry].pre_handler, PreHandler::ReturnProbe));
    ops.clear();
    let mut tf = frame(entry);
    tf.x[1] = 0x1111;
    assert!(kprobes_breakpoint_handler(&mut probes, &mut tf, 0xa000_0000, &mut ops));
    assert_eq!(tf.x[1], 0xa000_0000);
    assert_eq!(ops, vec![KernelOp::Breakpoints { addr: 0xa000_0000, count: 2048 }]);
    let mut tf2 = frame(entry);
    tf2.x[1] = 0x2222;
    assert!(!kprobes_breakpoint_handler(&mut probes, &mut tf2, 0xb000_0000, &mut ops));
    assert_eq!(tf2.x[1], 0xa000_0002);
    assert_eq!(
        probes.kretprobes.instances[&0xa000_0000],
        KRetProbeInstance { entry_addr: entry, ret_addr: 0x1111 }
    );
    assert_eq!(
        probes.kretprobes.instances[&0xa000_0002],
        KRetProbeInstance::new(entry, 0x2222)
    );
    assert_eq!(probes.kretprobes.map[&entry].nr_instances, 2);
    // a return probe with calls in flight stays
    assert_eq!(unregister_kretprobe(&mut probes, entry, &mut ops), None);
    // the first call returns
    let mut back = frame(0xa000_0000);
    kprobes_breakpoint_handler(&mut probes, &mut back, 0xb000_0000, &mut ops);
    assert_eq!((back.sepc, back.x[1]), (0x1111, 0x1111));
    assert_eq!(*log.borrow(), vec![("exit", 0xa000_0000, 0)]);
    assert_eq!(probes.kretprobes.instances.len(), 1);
    // its slot is the next to go out
    let mut tf3 = frame(entry);
    tf3.x[1] = 0x3333;
    kprobes_breakpoint_handler(&mut probes, &mut tf3, 0xb000_0000, &mut ops);
    assert_eq!(tf3.x[1], 0xa000_0000);
}

#[test]
fn no_symbol_has_an_address() {
    let log = Rc::new(RefCell::new(Vec::new()));
    let mut kprobes: KProbes<Recorder> = KProbes::new();
    let mut kret: KRetProbes<Recorder> = KRetProbes::new();
    let mut ops = Vec::new();
    let site = ProbeSite { insn: ADD, buf: 0x9000_0000 };
    let args = KProbeArgs::from(recorder("pre", &log));
    assert!(!register_kprobe_with_symbol(&mut kprobes, "sys_open", args, site, &mut ops));
    let args = KRetProbeArgs::from(recorder("exit", &log));
    assert!(!register_kretprobe_with_symbol(&mut kprobes, &mut kret, "sys_open", args, site, &mut ops));
    assert_eq!(ops, vec![KernelOp::FreePage { addr: 0x9000_0000 }; 2]);
    assert!(!unregister_kprobe_with_symbol(&mut kprobes, "sys_open", &mut ops));
    assert!(!unregister_kretprobe_with_symbol(&mut kprobes, &mut kret, "sys_open", &mut ops));
    assert_eq!(ops.len(), 2);
    assert!(kprobes.map.is_empty() && kret.map.is_empty());
}
