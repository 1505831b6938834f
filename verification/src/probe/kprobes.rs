//! Probes on single instructions.
//!
//! A probe replaces the instruction at its address by a breakpoint. When the
//! breakpoint is hit, the handler of the probe runs; then the displaced
//! instruction is either carried out by the engine, or run from the probe's
//! buffer, where a second breakpoint brings control back.
use super::arch::riscv::breakpoint::{inject_breakpoints, is_fresh_page, BreakpointPool};
use super::arch::riscv::trapframe::{get_trapframe_pc, set_trapframe_pc, TrapFrame};
use super::arch::riscv::{
    emulate_execution, emulated, get_insn_length, get_insn_type, insn_length_spec,
    insn_type_spec, invalidate_icache, is_emulated, InstructionBuffer,
};
use super::kretprobes::{kretprobe_kprobe_pre_handler, return_probe_entered, KRetProbes};
use super::osutils::{dealloc_page, symbol_to_addr, KernelOp, PAGE_SIZE};
use super::KProbeArgs;
use std::collections::BTreeMap;
use vstd::prelude::*;

verus! {

broadcast use vstd::std_specs::btree::group_btree_axioms;

/// What runs when a probe is hit: it sees the saved registers, which it may
/// change, and the word that the probe was registered with.
///
/// What a handler may do to the registers is its own affair, and `effect`
/// says what that is. The engine promises to call it, and states what a hit
/// leaves behind through `effect`; what is proved of a hit therefore holds
/// for handlers that keep to their `effect`.
pub trait Handler {
    /// Whether a call with the registers `before` and the word `data` may
    /// leave the registers `after` and return `ret`. A handler that does not
    /// say is free to leave anything.
    open spec fn effect(&self, before: TrapFrame, data: usize, after: TrapFrame, ret: isize) -> bool {
        true
    }

    fn call(&self, tf: &mut TrapFrame, data: usize) -> (ret: isize)
        ensures
            self.effect(*old(tf), data, *final(tf), ret),
    ;
}

/// The handler ran once on the registers `before` with the word `data`, and
/// left `after`.
pub open spec fn ran<H: Handler>(handler: H, before: TrapFrame, data: usize, after: TrapFrame) -> bool {
    exists|ret: isize| #[trigger] handler.effect(before, data, after, ret)
}

/// The handler ran once, as in `ran`, where there is one; where there is
/// none, the registers are as they were.
pub open spec fn ran_if_any<H: Handler>(
    handler: Option<H>,
    before: TrapFrame,
    data: usize,
    after: TrapFrame,
) -> bool {
    match handler {
        Some(h) => ran(h, before, data, after),
        None => after == before,
    }
}

/// How the engine steps over the instruction that a probe displaced.
#[derive(Clone, Copy, Debug, PartialEq, Eq, Structural)]
pub enum SingleStepType {
    /// the instruction cannot be probed
    Unsupported,
    /// the instruction is run from a buffer, with a breakpoint behind it
    Execute,
    /// the engine does what the instruction would do
    Emulate,
}

/// What a probe does first when it is hit: call a handler, or take note that
/// a function with a return probe was entered.
pub enum PreHandler<H> {
    Call(H),
    ReturnProbe,
}

/// What the engine needs of the memory around a probe, which the caller
/// reads and sets aside before it registers one: the four bytes at the
/// probed address, lowest first, and a page for the buffer.
#[derive(Clone, Copy, Debug, PartialEq, Eq, Structural)]
pub struct ProbeSite {
    pub insn: u32,
    pub buf: usize,
}

pub struct KProbe<H> {
    /// entry address
    pub addr: usize,
    pub pre_handler: PreHandler<H>,
    pub post_handler: Option<H>,
    pub user_data: usize,
    pub insn_buf: InstructionBuffer,
    pub insn_len: usize,
    pub active_count: usize,
    pub emulate: bool,
    /// the displaced instruction
    pub insn: u32,
}

/// The probes by address, and for each probe that runs its instruction from
/// the buffer the way back: from the address of the breakpoint in the buffer
/// to the address of the probe.
pub struct KProbes<H> {
    pub map: BTreeMap<usize, KProbe<H>>,
    pub addr_map: BTreeMap<usize, usize>,
}

impl<H> KProbe<H> {
    /// Where the breakpoint behind the displaced instruction stands.
    pub open spec fn step_addr(&self) -> usize {
        (self.insn_buf.addr + self.insn_len) as usize
    }

    /// A probe at `addr` is in order where it knows its address and its
    /// instruction, and neither the instruction nor the buffer reaches
    /// beyond the address space.
    pub open spec fn wf(&self, addr: usize) -> bool {
        &&& self.addr == addr
        &&& self.insn_len == insn_length_spec(self.insn as u16)
        &&& (self.insn_len == 2 || self.insn_len == 4)
        &&& self.emulate == is_emulated(self.insn)
        &&& self.insn_buf.wf()
        &&& addr + self.insn_len <= usize::MAX
    }

    /// What arming a probe does to memory: the instruction goes into the
    /// buffer, a breakpoint behind it; breakpoints take the place of the
    /// instruction; and the instruction cache is flushed.
    pub open spec fn arm_ops(&self) -> Seq<KernelOp> {
        seq![
            KernelOp::Copy { dst: self.insn_buf.addr, src: self.addr, len: self.insn_len },
            KernelOp::Breakpoints { addr: self.step_addr(), count: 1 },
            KernelOp::Breakpoints { addr: self.addr, count: self.insn_len / 2 },
            KernelOp::FlushICache,
        ]
    }

    /// What disarming a probe does to memory: the instruction goes back to
    /// its place, and the instruction cache is flushed.
    pub open spec fn disarm_ops(&self) -> Seq<KernelOp> {
        seq![
            KernelOp::Copy { dst: self.addr, src: self.insn_buf.addr, len: self.insn_len },
            KernelOp::FlushICache,
        ]
    }

    /// A probe at `addr`, where the instruction `insn` stands, with its
    /// buffer in the page at `buf`.
    pub fn new(
        addr: usize,
        pre_handler: PreHandler<H>,
        post_handler: Option<H>,
        user_data: usize,
        emulate: bool,
        insn: u32,
        buf: usize,
    ) -> (probe: Self)
        ensures
            probe.addr == addr,
            probe.pre_handler == pre_handler,
            probe.post_handler == post_handler,
            probe.user_data == user_data,
            probe.insn_buf.addr == buf,
            probe.insn_len == insn_length_spec(insn as u16),
            probe.active_count == 0,
            probe.emulate == emulate,
            probe.insn == insn,
    {
        Self {
            addr,
            pre_handler,
            post_handler,
            user_data,
            insn_buf: InstructionBuffer::new(buf),
            insn_len: get_insn_length(#[verifier::truncate] (insn as u16)),
            active_count: 0,
            emulate,
            insn,
        }
    }

    pub fn arm(&self, ops: &mut Vec<KernelOp>)
        requires
            self.wf(self.addr),
        ensures
            final(ops)@ == old(ops)@ + self.arm_ops(),
    {
        // write instruction buffer
        self.insn_buf.copy_in(ops, 0, self.addr, self.insn_len);
        self.insn_buf.add_breakpoint(ops, self.insn_len);
        // breakpoints take the place of the instruction
        inject_breakpoints(ops, self.addr, Some(self.insn_len));
        invalidate_icache(ops);
        assert(ops@ =~= old(ops)@ + self.arm_ops());
    }

    pub fn disarm(&self, ops: &mut Vec<KernelOp>)
        requires
            self.wf(self.addr),
        ensures
            final(ops)@ == old(ops)@ + self.disarm_ops(),
    {
        // the instruction goes back to its place
        self.insn_buf.copy_out(ops, 0, self.addr, self.insn_len);
        invalidate_icache(ops);
        assert(ops@ =~= old(ops)@ + self.disarm_ops());
    }
}

impl<H> KProbes<H> {
    /// Every probe is in order, and the ways back from the buffers are those
    /// of the probes that run their instruction there: one for each, and no
    /// other.
    pub open spec fn wf(&self) -> bool {
        &&& forall|a: usize| #[trigger]
            self.map@.contains_key(a) ==> self.map@[a].wf(a) && (!self.map@[a].emulate
                ==> self.addr_map@.contains_key(self.map@[a].step_addr())
                && self.addr_map@[self.map@[a].step_addr()] == a)
        &&& forall|k: usize| #[trigger]
            self.addr_map@.contains_key(k) ==> self.map@.contains_key(self.addr_map@[k])
                && self.map@[self.addr_map@[k]].step_addr() == k
                && !self.map@[self.addr_map@[k]].emulate
    }

    /// No probes.
    pub fn new() -> (probes: Self)
        ensures
            probes.wf(),
            probes.map@ == Map::<usize, KProbe<H>>::empty(),
            probes.addr_map@ == Map::<usize, usize>::empty(),
    {
        KProbes { map: BTreeMap::new(), addr_map: BTreeMap::new() }
    }

    /// Whether a probe can be put at `addr`: there is none yet, the
    /// instruction there can be stepped over, neither it nor the buffer
    /// reaches beyond the address space, and the buffer is not that of
    /// another probe.
    pub open spec fn can_register(&self, addr: usize, site: ProbeSite) -> bool {
        &&& !self.map@.contains_key(addr)
        &&& insn_type_spec(site.insn) != SingleStepType::Unsupported
        &&& site.buf + PAGE_SIZE <= usize::MAX
        &&& addr + insn_length_spec(site.insn as u16) <= usize::MAX
        &&& !self.addr_map@.contains_key((site.buf + insn_length_spec(site.insn as u16)) as usize)
    }

    /// The ways back after a probe was put: a probe that runs its
    /// instruction from the buffer adds the way back from there.
    pub open spec fn ways_back_with(&self, probe: KProbe<H>) -> Map<usize, usize> {
        if probe.emulate {
            self.addr_map@
        } else {
            self.addr_map@.insert(probe.step_addr(), probe.addr)
        }
    }

    /// The ways back after a probe was removed.
    pub open spec fn ways_back_without(&self, probe: KProbe<H>) -> Map<usize, usize> {
        if probe.emulate {
            self.addr_map@
        } else {
            self.addr_map@.remove(probe.step_addr())
        }
    }
}

/// What putting a probe at `addr` leaves behind. Where a probe can be put,
/// it is there with what it was given, not active, the way back from its
/// buffer is noted where it needs one, and the kernel is asked to arm it.
/// Where none can be put, nothing changes, and the page of `site` is given
/// back.
pub open spec fn kprobe_registered<H>(
    k0: &KProbes<H>,
    k1: &KProbes<H>,
    addr: usize,
    pre_handler: PreHandler<H>,
    post_handler: Option<H>,
    user_data: usize,
    site: ProbeSite,
    ops0: Seq<KernelOp>,
    ops1: Seq<KernelOp>,
    ok: bool,
) -> bool {
    &&& ok == k0.can_register(addr, site)
    &&& ok ==> {
        &&& k1.map@.dom() == k0.map@.dom().insert(addr)
        &&& forall|a: usize|
            a != addr && #[trigger] k0.map@.contains_key(a) ==> k1.map@[a] == k0.map@[a]
        &&& k1.map@[addr].addr == addr
        &&& k1.map@[addr].pre_handler == pre_handler
        &&& k1.map@[addr].post_handler == post_handler
        &&& k1.map@[addr].user_data == user_data
        &&& k1.map@[addr].insn_buf.addr == site.buf
        &&& k1.map@[addr].insn == site.insn
        &&& k1.map@[addr].insn_len == insn_length_spec(site.insn as u16)
        &&& k1.map@[addr].active_count == 0
        &&& k1.map@[addr].emulate == (insn_type_spec(site.insn) == SingleStepType::Emulate)
        &&& k1.addr_map@ == k0.ways_back_with(k1.map@[addr])
        &&& ops1 == ops0 + k1.map@[addr].arm_ops()
    }
    &&& !ok ==> {
        &&& k1.map@ == k0.map@
        &&& k1.addr_map@ == k0.addr_map@
        &&& ops1 == ops0.push(KernelOp::FreePage { addr: site.buf })
    }
}

/// What removing the probe at `addr` leaves behind. A probe that is there
/// and not active goes: the kernel is asked to disarm it and gets the page
/// of its buffer back. Otherwise nothing changes.
pub open spec fn kprobe_unregistered<H>(
    k0: &KProbes<H>,
    k1: &KProbes<H>,
    addr: usize,
    ops0: Seq<KernelOp>,
    ops1: Seq<KernelOp>,
    ok: bool,
) -> bool {
    &&& ok == (k0.map@.contains_key(addr) && k0.map@[addr].active_count == 0)
    &&& ok ==> {
        let probe = k0.map@[addr];
        &&& k1.map@ == k0.map@.remove(addr)
        &&& k1.addr_map@ == k0.ways_back_without(probe)
        &&& ops1 == (ops0 + probe.disarm_ops()).push(
            KernelOp::FreePage { addr: probe.insn_buf.addr },
        )
    }
    &&& !ok ==> k1.map@ == k0.map@ && k1.addr_map@ == k0.addr_map@ && ops1 == ops0
}

/// Puts a probe at `addr`, or says why not by giving the page back.
pub fn register_with<H>(
    kprobes: &mut KProbes<H>,
    addr: usize,
    pre_handler: PreHandler<H>,
    post_handler: Option<H>,
    user_data: usize,
    site: ProbeSite,
    ops: &mut Vec<KernelOp>,
) -> (ok: bool)
    requires
        old(kprobes).wf(),
    ensures
        final(kprobes).wf(),
        kprobe_registered(
            old(kprobes),
            final(kprobes),
            addr,
            pre_handler,
            post_handler,
            user_data,
            site,
            old(ops)@,
            final(ops)@,
            ok,
        ),
{
    if kprobes.map.contains_key(&addr) {
        dealloc_page(ops, site.buf);
        return false;
    }
    let insn_type = get_insn_type(site.insn);
    let insn_len = get_insn_length(#[verifier::truncate] (site.insn as u16));
    let fits = match site.buf.checked_add(PAGE_SIZE) {
        Some(_) => addr.checked_add(insn_len).is_some(),
        None => false,
    };
    if insn_type == SingleStepType::Unsupported || !fits {
        dealloc_page(ops, site.buf);
        return false;
    }
    // bp in inst buffer, will be executed if inst not emulated
    let next_bp_addr = site.buf + insn_len;
    if kprobes.addr_map.contains_key(&next_bp_addr) {
        dealloc_page(ops, site.buf);
        return false;
    }
    let emulate = insn_type == SingleStepType::Emulate;
    let probe = KProbe::new(
        addr,
        pre_handler,
        post_handler,
        user_data,
        emulate,
        site.insn,
        site.buf,
    );
    probe.arm(ops);
    if !emulate {
        kprobes.addr_map.insert(next_bp_addr, addr);
    }
    kprobes.map.insert(addr, probe);
    proof {
        assert(kprobes.addr_map@ =~= old(kprobes).ways_back_with(kprobes.map@[addr]));
        assert forall|a: usize| #[trigger] kprobes.map@.contains_key(a) implies kprobes.map@[a].wf(
            a,
        ) && (!kprobes.map@[a].emulate ==> kprobes.addr_map@.contains_key(
            kprobes.map@[a].step_addr(),
        ) && kprobes.addr_map@[kprobes.map@[a].step_addr()] == a) by {
            if a != addr {
                assert(old(kprobes).map@.contains_key(a));
            }
        }
        assert forall|k: usize| #[trigger] kprobes.addr_map@.contains_key(k) implies kprobes.map@.contains_key(
            kprobes.addr_map@[k],
        ) && kprobes.map@[kprobes.addr_map@[k]].step_addr() == k
            && !kprobes.map@[kprobes.addr_map@[k]].emulate by {
            if k != next_bp_addr || emulate {
                assert(old(kprobes).addr_map@.contains_key(k));
            }
        }
    }
    true
}

/// register kprobe with args at given address
/// an address carries one kprobe
/// possible errors: kprobe already exist at given addr, target instruction is not supported
pub fn register_kprobe<H>(
    kprobes: &mut KProbes<H>,
    addr: usize,
    args: KProbeArgs<H>,
    site: ProbeSite,
    ops: &mut Vec<KernelOp>,
) -> (ok: bool)
    requires
        old(kprobes).wf(),
    ensures
        final(kprobes).wf(),
        kprobe_registered(
            old(kprobes),
            final(kprobes),
            addr,
            PreHandler::Call(args.pre_handler),
            args.post_handler,
            args.user_data,
            site,
            old(ops)@,
            final(ops)@,
            ok,
        ),
{
    register_with(
        kprobes,
        addr,
        PreHandler::Call(args.pre_handler),
        args.post_handler,
        args.user_data,
        site,
        ops,
    )
}

/// unregister kprobe at given address
/// possible errors: kprobe not exist at given addr, kprobe is still active
/// (post handler not executed)
pub fn unregister_kprobe<H>(kprobes: &mut KProbes<H>, addr: usize, ops: &mut Vec<KernelOp>) -> (ok:
    bool)
    requires
        old(kprobes).wf(),
    ensures
        final(kprobes).wf(),
        kprobe_unregistered(old(kprobes), final(kprobes), addr, old(ops)@, final(ops)@, ok),
{
    let active = match kprobes.map.get(&addr) {
        Some(probe) => probe.active_count > 0,
        None => { return false; },
    };
    if active {
        return false;
    }
    let probe = kprobes.map.remove(&addr).unwrap();
    probe.disarm(ops);
    let step = probe.insn_buf.addr() + probe.insn_len;
    if !probe.emulate {
        let _ = kprobes.addr_map.remove(&step);
    }
    proof {
        assert(kprobes.addr_map@ =~= old(kprobes).ways_back_without(probe));
        assert forall|a: usize| #[trigger] kprobes.map@.contains_key(a) implies kprobes.map@[a].wf(
            a,
        ) && (!kprobes.map@[a].emulate ==> kprobes.addr_map@.contains_key(
            kprobes.map@[a].step_addr(),
        ) && kprobes.addr_map@[kprobes.map@[a].step_addr()] == a) by {
            assert(old(kprobes).map@.contains_key(a));
            if !old(kprobes).map@[a].emulate {
                assert(old(kprobes).addr_map@.contains_key(old(kprobes).map@[a].step_addr()));
                if !probe.emulate {
                    assert(old(kprobes).addr_map@.contains_key(step));
                }
            }
        }
        assert forall|k: usize| #[trigger] kprobes.addr_map@.contains_key(k) implies kprobes.map@.contains_key(
            kprobes.addr_map@[k],
        ) && kprobes.map@[kprobes.addr_map@[k]].step_addr() == k
            && !kprobes.map@[kprobes.addr_map@[k]].emulate by {
            assert(old(kprobes).addr_map@.contains_key(k));
        }
    }
    probe.insn_buf.release(ops);
    true
}

/// A probe at the address of a kernel symbol: none, as no symbol has an
/// address. The page of the site is given back.
pub fn register_kprobe_with_symbol<H>(
    kprobes: &mut KProbes<H>,
    symbol: &str,
    args: KProbeArgs<H>,
    site: ProbeSite,
    ops: &mut Vec<KernelOp>,
) -> (ok: bool)
    requires
        old(kprobes).wf(),
    ensures
        !ok,
        final(kprobes).wf(),
        final(kprobes).map@ == old(kprobes).map@,
        final(kprobes).addr_map@ == old(kprobes).addr_map@,
        final(ops)@ == old(ops)@.push(KernelOp::FreePage { addr: site.buf }),
{
    if let Some(addr) = symbol_to_addr(symbol) {
        register_kprobe(kprobes, addr, args, site, ops)
    } else {
        dealloc_page(ops, site.buf);
        false
    }
}

/// Removes the probe at the address of a kernel symbol: none, as no symbol
/// has an address.
pub fn unregister_kprobe_with_symbol<H>(
    kprobes: &mut KProbes<H>,
    symbol: &str,
    ops: &mut Vec<KernelOp>,
) -> (ok: bool)
    requires
        old(kprobes).wf(),
    ensures
        !ok,
        final(kprobes).wf(),
        final(kprobes).map@ == old(kprobes).map@,
        final(kprobes).addr_map@ == old(kprobes).addr_map@,
        final(ops)@ == old(ops)@,
{
    if let Some(addr) = symbol_to_addr(symbol) {
        unregister_kprobe(kprobes, addr, ops)
    } else {
        false
    }
}

/// How the saved registers `tf1` come from `mid`, the registers as the first
/// handler of the probe left them. A probe that runs its instruction from
/// the buffer sends the program counter there. A probe that emulates carries
/// the instruction out, and then runs the handler that comes after the
/// instruction, where it has one.
pub open spec fn stepped<H: Handler>(probe: KProbe<H>, mid: TrapFrame, tf1: TrapFrame) -> bool {
    if probe.emulate {
        exists|done: TrapFrame|
            {
                &&& #[trigger] emulated(mid, probe.insn, probe.addr, done)
                &&& ran_if_any(probe.post_handler, done, probe.user_data, tf1)
            }
    } else {
        tf1 == (TrapFrame { sepc: probe.insn_buf.addr, ..mid })
    }
}

/// What the first handler of a probe leaves behind when the probe is hit
/// with the registers `tf0`: the registers `mid`, and for a return probe a
/// call in flight (`return_probe_entered`). A handler that was given at
/// registration runs once with `tf0` and the word of the probe, and touches
/// nothing of the return probes.
pub open spec fn pre_handled<H: Handler>(
    probe: KProbe<H>,
    kret0: &KRetProbes<H>,
    kret1: &KRetProbes<H>,
    pool0: Seq<super::arch::riscv::breakpoint::PageView>,
    pool1: Seq<super::arch::riscv::breakpoint::PageView>,
    tf0: TrapFrame,
    mid: TrapFrame,
    fresh_page: usize,
    ops0: Seq<KernelOp>,
    ops1: Seq<KernelOp>,
    page_used: bool,
) -> bool {
    match probe.pre_handler {
        PreHandler::Call(handler) => {
            &&& ran(handler, tf0, probe.user_data, mid)
            &&& kret1.map@ == kret0.map@
            &&& kret1.instances@ == kret0.instances@
            &&& pool1 == pool0
            &&& ops1 == ops0
            &&& !page_used
        },
        PreHandler::ReturnProbe => return_probe_entered(
            kret0,
            kret1,
            pool0,
            pool1,
            tf0,
            mid,
            fresh_page,
            ops0,
            ops1,
            page_used,
        ),
    }
}

/// What the hit of a breakpoint leaves behind, as far as it concerns the
/// probes on instructions. `tf0` and `tf1` are the saved registers before
/// and after.
///
/// At the address of a probe, the first handler of the probe runs
/// (`pre_handled`); then the instruction is stepped over (`stepped`). A
/// probe that runs its instruction from the buffer counts as active from
/// here on. At the breakpoint in the buffer of a probe, the handler that
/// comes after the instruction runs on the registers as they are, the probe
/// is active once less, and control goes back to the instruction behind the
/// probed one. Anywhere else nothing happens, and the breakpoint is not
/// handled.
pub open spec fn kprobe_trapped<H: Handler>(
    k0: &KProbes<H>,
    k1: &KProbes<H>,
    kret0: &KRetProbes<H>,
    kret1: &KRetProbes<H>,
    pool0: Seq<super::arch::riscv::breakpoint::PageView>,
    pool1: Seq<super::arch::riscv::breakpoint::PageView>,
    tf0: TrapFrame,
    tf1: TrapFrame,
    fresh_page: usize,
    ops0: Seq<KernelOp>,
    ops1: Seq<KernelOp>,
    handled: bool,
    page_used: bool,
) -> bool {
    let pc = tf0.sepc;
    if k0.map@.contains_key(pc) {
        let probe = k0.map@[pc];
        &&& handled
        &&& k1.addr_map@ == k0.addr_map@
        &&& k1.map@ == k0.map@.insert(
            pc,
            KProbe {
                active_count: if probe.emulate || probe.active_count == usize::MAX {
                    probe.active_count
                } else {
                    (probe.active_count + 1) as usize
                },
                ..probe
            },
        )
        &&& exists|mid: TrapFrame|
            {
                &&& #[trigger] stepped(probe, mid, tf1)
                &&& pre_handled(
                    probe,
                    kret0,
                    kret1,
                    pool0,
                    pool1,
                    tf0,
                    mid,
                    fresh_page,
                    ops0,
                    ops1,
                    page_used,
                )
            }
    } else if k0.addr_map@.contains_key(pc) {
        let orig = k0.addr_map@[pc];
        let probe = k0.map@[orig];
        &&& handled
        &&& k1.addr_map@ == k0.addr_map@
        &&& k1.map@ == k0.map@.insert(
            orig,
            KProbe {
                active_count: if probe.active_count > 0 {
                    (probe.active_count - 1) as usize
                } else {
                    0
                },
                ..probe
            },
        )
        &&& exists|after: TrapFrame|
            {
                &&& #[trigger] ran_if_any(probe.post_handler, tf0, probe.user_data, after)
                &&& tf1 == (TrapFrame { sepc: (orig + probe.insn_len) as usize, ..after })
            }
        &&& kret1.map@ == kret0.map@
        &&& kret1.instances@ == kret0.instances@
        &&& pool1 == pool0
        &&& ops1 == ops0
        &&& !page_used
    } else {
        &&& !handled
        &&& k1.addr_map@ == k0.addr_map@
        &&& k1.map@ == k0.map@
        &&& tf1 == tf0
        &&& kret1.map@ == kret0.map@
        &&& kret1.instances@ == kret0.instances@
        &&& pool1 == pool0
        &&& ops1 == ops0
        &&& !page_used
    }
}

/// A handler that leaves the registers as it found them, whatever it is
/// called with.
pub open spec fn is_quiet<H: Handler>(handler: H) -> bool {
    forall|before: TrapFrame, data: usize, after: TrapFrame, ret: isize| #[trigger]
        handler.effect(before, data, after, ret) ==> after == before
}

/// The same, of a handler that may be missing.
pub open spec fn is_quiet_if_any<H: Handler>(handler: Option<H>) -> bool {
    handler matches Some(h) ==> is_quiet(h)
}

/// A probe that runs its instruction from the buffer and whose first handler
/// is quiet changes nothing of the registers when it is hit but the program
/// counter, which goes to the buffer; and the probe is active once more.
pub proof fn lemma_quiet_hit<H: Handler>(
    k0: &KProbes<H>,
    k1: &KProbes<H>,
    kret0: &KRetProbes<H>,
    kret1: &KRetProbes<H>,
    pool0: Seq<super::arch::riscv::breakpoint::PageView>,
    pool1: Seq<super::arch::riscv::breakpoint::PageView>,
    tf0: TrapFrame,
    tf1: TrapFrame,
    fresh_page: usize,
    ops0: Seq<KernelOp>,
    ops1: Seq<KernelOp>,
    handled: bool,
    page_used: bool,
)
    requires
        kprobe_trapped(
            k0,
            k1,
            kret0,
            kret1,
            pool0,
            pool1,
            tf0,
            tf1,
            fresh_page,
            ops0,
            ops1,
            handled,
            page_used,
        ),
        k0.map@.contains_key(tf0.sepc),
        !k0.map@[tf0.sepc].emulate,
        k0.map@[tf0.sepc].pre_handler matches PreHandler::Call(h) && is_quiet(h),
        k0.map@[tf0.sepc].active_count < usize::MAX,
    ensures
        handled,
        tf1 == (TrapFrame { sepc: k0.map@[tf0.sepc].insn_buf.addr, ..tf0 }),
        k1.map@[tf0.sepc].active_count == k0.map@[tf0.sepc].active_count + 1,
        ops1 == ops0,
{
    let probe = k0.map@[tf0.sepc];
    let mid = choose|mid: TrapFrame| #[trigger]
        stepped(probe, mid, tf1) && pre_handled(
            probe,
            kret0,
            kret1,
            pool0,
            pool1,
            tf0,
            mid,
            fresh_page,
            ops0,
            ops1,
            page_used,
        );
    assert(mid == tf0);
}

/// When the instruction of a probe has run from the buffer and the
/// breakpoint behind it is hit, a quiet handler, or none, changes nothing of
/// the registers but the program counter, which goes behind the probed
/// instruction; and the probe is active once less.
pub proof fn lemma_quiet_step_back<H: Handler>(
    k0: &KProbes<H>,
    k1: &KProbes<H>,
    kret0: &KRetProbes<H>,
    kret1: &KRetProbes<H>,
    pool0: Seq<super::arch::riscv::breakpoint::PageView>,
    pool1: Seq<super::arch::riscv::breakpoint::PageView>,
    tf0: TrapFrame,
    tf1: TrapFrame,
    fresh_page: usize,
    ops0: Seq<KernelOp>,
    ops1: Seq<KernelOp>,
    handled: bool,
    page_used: bool,
)
    requires
        k0.wf(),
        kprobe_trapped(
            k0,
            k1,
            kret0,
            kret1,
            pool0,
            pool1,
            tf0,
            tf1,
            fresh_page,
            ops0,
            ops1,
            handled,
            page_used,
        ),
        !k0.map@.contains_key(tf0.sepc),
        k0.addr_map@.contains_key(tf0.sepc),
        is_quiet_if_any(k0.map@[k0.addr_map@[tf0.sepc]].post_handler),
        k0.map@[k0.addr_map@[tf0.sepc]].active_count > 0,
    ensures
        handled,
        tf1 == (TrapFrame {
            sepc: (k0.addr_map@[tf0.sepc] + k0.map@[k0.addr_map@[tf0.sepc]].insn_len) as usize,
            ..tf0
        }),
        k1.map@[k0.addr_map@[tf0.sepc]].active_count == k0.map@[k0.addr_map@[tf0.sepc]].active_count
            - 1,
        ops1 == ops0,
{
    let orig = k0.addr_map@[tf0.sepc];
    let probe = k0.map@[orig];
    let after = choose|after: TrapFrame| #[trigger]
        ran_if_any(probe.post_handler, tf0, probe.user_data, after) && tf1 == (TrapFrame {
            sepc: (orig + probe.insn_len) as usize,
            ..after
        });
    assert(after == tf0);
}

/// The entry for a breakpoint trap. The first result says whether the trap
/// was one of the engine's: `false` means that the breakpoint belongs to
/// somebody else and nothing was touched. The second says whether
/// `fresh_page` was taken for breakpoint slots.
pub fn kprobe_trap_handler<H: Handler>(
    kprobes: &mut KProbes<H>,
    kret: &mut KRetProbes<H>,
    pool: &mut BreakpointPool,
    tf: &mut TrapFrame,
    fresh_page: usize,
    ops: &mut Vec<KernelOp>,
) -> (r: (bool, bool))
    requires
        old(kprobes).wf(),
        old(pool).wf(),
        old(kret).wf(old(pool)),
        is_fresh_page(old(pool)@, fresh_page),
    ensures
        final(kprobes).wf(),
        final(pool).wf(),
        final(kret).wf(final(pool)),
        kprobe_trapped(
            old(kprobes),
            final(kprobes),
            old(kret),
            final(kret),
            old(pool)@,
            final(pool)@,
            *old(tf),
            *final(tf),
            fresh_page,
            old(ops)@,
            final(ops)@,
            r.0,
            r.1,
        ),
{
    let pc = get_trapframe_pc(tf);
    // check if this is the entry of a kprobe, fails if pc is at post handler stage
    match kprobes.map.remove(&pc) {
        Some(mut probe) => {
            // breakpoint hit for the first time
            let page_used = match &probe.pre_handler {
                PreHandler::Call(handler) => {
                    let _ = handler.call(tf, probe.user_data);
                    assert(ran(*handler, *old(tf), probe.user_data, *tf));
                    false
                },
                PreHandler::ReturnProbe => {
                    let (_, page_used) = kretprobe_kprobe_pre_handler(
                        kret,
                        pool,
                        tf,
                        probe.user_data,
                        fresh_page,
                        ops,
                    );
                    page_used
                },
            };
            let ghost mid = *tf;
            if probe.emulate {
                // emulate and return if instruction is emulated
                emulate_execution(tf, probe.insn, probe.addr);
                let ghost done = *tf;
                match &probe.post_handler {
                    Some(handler) => {
                        let _ = handler.call(tf, probe.user_data);
                        assert(ran(*handler, done, probe.user_data, *tf));
                    },
                    None => {},
                }
                assert(emulated(mid, probe.insn, probe.addr, done));
            } else {
                if probe.active_count < usize::MAX {
                    probe.active_count += 1;
                }
                // redirect to instruction buffer (single step type is 'execute')
                set_trapframe_pc(tf, probe.insn_buf.addr());
            }
            let ghost hit = probe;
            kprobes.map.insert(pc, probe);
            proof {
                assert(kprobes.map@ =~= old(kprobes).map@.insert(pc, hit));
                assert(stepped(old(kprobes).map@[pc], mid, *tf));
                assert(pre_handled(
                    old(kprobes).map@[pc],
                    old(kret),
                    kret,
                    old(pool)@,
                    pool@,
                    *old(tf),
                    mid,
                    fresh_page,
                    old(ops)@,
                    ops@,
                    page_used,
                ));
                assert forall|a: usize| #[trigger]
                    kprobes.map@.contains_key(a) implies kprobes.map@[a].wf(a) && (
                !kprobes.map@[a].emulate ==> kprobes.addr_map@.contains_key(
                    kprobes.map@[a].step_addr(),
                ) && kprobes.addr_map@[kprobes.map@[a].step_addr()] == a) by {
                    assert(old(kprobes).map@.contains_key(a));
                }
                assert forall|k: usize| #[trigger]
                    kprobes.addr_map@.contains_key(k) implies kprobes.map@.contains_key(
                    kprobes.addr_map@[k],
                ) && kprobes.map@[kprobes.addr_map@[k]].step_addr() == k
                    && !kprobes.map@[kprobes.addr_map@[k]].emulate by {
                    assert(old(kprobes).addr_map@.contains_key(k));
                }
            }
            (true, page_used)
        },
        None => {
            assert(kprobes.map@ =~= old(kprobes).map@);
            // post_handler stage
            let orig_addr = match kprobes.addr_map.get(&pc) {
                Some(orig_addr) => *orig_addr,
                None => { return (false, false); },
            };
            assert(old(kprobes).addr_map@.contains_key(pc));
            let mut probe = kprobes.map.remove(&orig_addr).unwrap();
            match &probe.post_handler {
                Some(handler) => {
                    let _ = handler.call(tf, probe.user_data);
                    assert(ran(*handler, *old(tf), probe.user_data, *tf));
                },
                None => {},
            }
            let ghost after = *tf;
            assert(ran_if_any(old(kprobes).map@[orig_addr].post_handler, *old(tf), probe.user_data, after));
            if probe.active_count > 0 {
                probe.active_count -= 1;
            }
            set_trapframe_pc(tf, orig_addr + probe.insn_len);
            let ghost left = probe;
            kprobes.map.insert(orig_addr, probe);
            proof {
                assert(kprobes.map@ =~= old(kprobes).map@.insert(orig_addr, left));
                assert forall|a: usize| #[trigger]
                    kprobes.map@.contains_key(a) implies kprobes.map@[a].wf(a) && (
                !kprobes.map@[a].emulate ==> kprobes.addr_map@.contains_key(
                    kprobes.map@[a].step_addr(),
                ) && kprobes.addr_map@[kprobes.map@[a].step_addr()] == a) by {
                    assert(old(kprobes).map@.contains_key(a));
                }
                assert forall|k: usize| #[trigger]
                    kprobes.addr_map@.contains_key(k) implies kprobes.map@.contains_key(
                    kprobes.addr_map@[k],
                ) && kprobes.map@[kprobes.addr_map@[k]].step_addr() == k
                    && !kprobes.map@[kprobes.addr_map@[k]].emulate by {
                    assert(old(kprobes).addr_map@.contains_key(k));
                }
            }
            (true, false)
        },
    }
}

} // verus!
