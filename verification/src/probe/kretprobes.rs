//! Probes on the return of a function.
//!
//! A return probe sits on a probe at the entry of the function. When the
//! function is entered, the engine notes where it would return to and makes
//! it return to a breakpoint slot instead; when that breakpoint is hit, the
//! exit handler runs and the function returns to where it was called from.
use super::arch::riscv::breakpoint::{
    after_alloc, after_free, alloc_breakpoint, first_free_page, free_breakpoint, is_fresh_page,
    next_slot, page_released, slot_in_use, BreakpointPool, PageView, BREAKPOINTS_PER_PAGE,
};
use super::arch::riscv::trapframe::{
    get_trapframe_pc, get_trapframe_ra, set_trapframe_pc, set_trapframe_ra, TrapFrame,
};
use super::kprobes::{
    is_quiet, is_quiet_if_any, kprobe_registered, kprobe_unregistered, ran, ran_if_any,
    register_with, unregister_kprobe, Handler, KProbes, PreHandler, ProbeSite,
};
use super::osutils::{dealloc_page, symbol_to_addr, KernelOp};
use super::KRetProbeArgs;
use std::collections::BTreeMap;
use vstd::prelude::*;

verus! {

broadcast use vstd::std_specs::btree::group_btree_axioms;

/// instances: the function is entered but has not returned, leaving the probe hanging
/// instance_limit: the maximum number of instances allowed, limits probing of recursive functions
/// misses: the number of times the instance limit was reached and retprobe was not executed
pub struct KRetProbe<H> {
    pub entry_handler: Option<H>,
    pub exit_handler: H,
    pub instance_limit: usize,
    pub user_data: usize,
    pub nr_instances: usize,
    pub nr_misses: usize,
}

/// One call that has not returned yet: the function, by its entry address,
/// and the address that it was called from.
#[derive(Clone, Copy, Debug, PartialEq, Eq, Structural)]
pub struct KRetProbeInstance {
    pub entry_addr: usize,
    pub ret_addr: usize,
}

/// The return probes by entry address, and the calls in flight by the
/// breakpoint slot that each will return to.
pub struct KRetProbes<H> {
    pub map: BTreeMap<usize, KRetProbe<H>>,
    pub instances: BTreeMap<usize, KRetProbeInstance>,
}

impl<H> KRetProbe<H> {
    pub fn new(
        exit_handler: H,
        entry_handler: Option<H>,
        limit: Option<usize>,
        user_data: usize,
    ) -> (probe: Self)
        ensures
            probe.entry_handler == entry_handler,
            probe.exit_handler == exit_handler,
            probe.instance_limit == (match limit {
                Some(n) => n,
                None => usize::MAX,
            }),
            probe.user_data == user_data,
            probe.nr_instances == 0,
            probe.nr_misses == 0,
    {
        let instance_limit = match limit {
            Some(n) => n,
            None => usize::MAX,
        };
        Self {
            entry_handler,
            exit_handler,
            instance_limit,
            user_data,
            nr_instances: 0,
            nr_misses: 0,
        }
    }
}

impl KRetProbeInstance {
    pub fn new(entry_addr: usize, ret_addr: usize) -> (instance: Self)
        ensures
            instance == (KRetProbeInstance { entry_addr, ret_addr }),
    {
        Self { entry_addr, ret_addr }
    }
}

impl<H> KRetProbes<H> {
    /// Every call in flight holds a slot of the pool, and every slot that is
    /// handed out belongs to a call in flight.
    pub open spec fn wf(&self, pool: &BreakpointPool) -> bool {
        forall|a: usize| #[trigger] self.instances@.contains_key(a) <==> slot_in_use(pool@, a)
    }

    /// No return probes.
    pub fn new() -> (probes: Self)
        ensures
            probes.map@ == Map::<usize, KRetProbe<H>>::empty(),
            probes.instances@ == Map::<usize, KRetProbeInstance>::empty(),
    {
        KRetProbes { map: BTreeMap::new(), instances: BTreeMap::new() }
    }
}

/// What the entry of a probed function leaves behind. `tf0` and `tf1` are
/// the saved registers before and after.
///
/// Where the function has no return probe, nothing. Where as many calls are
/// in flight as the probe allows, one more miss, and nothing else. Otherwise
/// one more call in flight. The entry handler runs first, where there is
/// one, with `tf0` and the word of the probe. Then the call gets the next
/// breakpoint slot, which no call in flight holds; the slot remembers the
/// function and the address that the function would have returned to, as the
/// return address register has it after the entry handler; and that register
/// is set to the slot, so that the function returns there.
pub open spec fn return_probe_entered<H: Handler>(
    kret0: &KRetProbes<H>,
    kret1: &KRetProbes<H>,
    pool0: Seq<PageView>,
    pool1: Seq<PageView>,
    tf0: TrapFrame,
    tf1: TrapFrame,
    fresh_page: usize,
    ops0: Seq<KernelOp>,
    ops1: Seq<KernelOp>,
    page_used: bool,
) -> bool {
    let pc = tf0.sepc;
    if !kret0.map@.contains_key(pc) {
        &&& kret1.map@ == kret0.map@
        &&& kret1.instances@ == kret0.instances@
        &&& pool1 == pool0
        &&& tf1 == tf0
        &&& ops1 == ops0
        &&& !page_used
    } else if kret0.map@[pc].nr_instances >= kret0.map@[pc].instance_limit {
        let probe = kret0.map@[pc];
        &&& kret1.map@ == kret0.map@.insert(
            pc,
            KRetProbe {
                nr_misses: if probe.nr_misses < usize::MAX {
                    (probe.nr_misses + 1) as usize
                } else {
                    probe.nr_misses
                },
                ..probe
            },
        )
        &&& kret1.instances@ == kret0.instances@
        &&& pool1 == pool0
        &&& tf1 == tf0
        &&& ops1 == ops0
        &&& !page_used
    } else {
        let probe = kret0.map@[pc];
        let slot = next_slot(pool0, fresh_page);
        &&& kret1.map@ == kret0.map@.insert(
            pc,
            KRetProbe { nr_instances: (probe.nr_instances + 1) as usize, ..probe },
        )
        &&& pool1 == after_alloc(pool0, fresh_page)
        &&& page_used == (first_free_page(pool0, 0) >= pool0.len())
        &&& ops1 == (if page_used {
            ops0.push(KernelOp::Breakpoints { addr: fresh_page, count: BREAKPOINTS_PER_PAGE })
        } else {
            ops0
        })
        &&& !kret0.instances@.contains_key(slot)
        &&& exists|mid: TrapFrame|
            {
                &&& #[trigger] ran_if_any(probe.entry_handler, tf0, probe.user_data, mid)
                &&& kret1.instances@ == kret0.instances@.insert(
                    slot,
                    KRetProbeInstance { entry_addr: pc, ret_addr: mid.x@[1] },
                )
                &&& tf1.x@ == mid.x@.update(1, slot)
                &&& tf1.sepc == mid.sepc
                &&& tf1.sstatus == mid.sstatus
            }
    }
}

/// a kretprobe is registered by registering a kprobe with this as the handler
/// executes pre_handler like kprobe, then changes ra to a breakpoint trampoline
/// to execute exit_handler in kretprobe
/// meanwhile saves pc and ra in the instances to restore trapframe later
pub fn kretprobe_kprobe_pre_handler<H: Handler>(
    kret: &mut KRetProbes<H>,
    pool: &mut BreakpointPool,
    tf: &mut TrapFrame,
    _data: usize,
    fresh_page: usize,
    ops: &mut Vec<KernelOp>,
) -> (r: (isize, bool))
    requires
        old(pool).wf(),
        old(kret).wf(old(pool)),
        is_fresh_page(old(pool)@, fresh_page),
    ensures
        final(pool).wf(),
        final(kret).wf(final(pool)),
        r.0 == 0,
        return_probe_entered(
            old(kret),
            final(kret),
            old(pool)@,
            final(pool)@,
            *old(tf),
            *final(tf),
            fresh_page,
            old(ops)@,
            final(ops)@,
            r.1,
        ),
{
    let pc = get_trapframe_pc(tf);
    let mut probe = match kret.map.remove(&pc) {
        Some(probe) => probe,
        None => {
            assert(kret.map@ =~= old(kret).map@);
            return (0, false);
        },
    };
    if probe.nr_instances >= probe.instance_limit {
        if probe.nr_misses < usize::MAX {
            probe.nr_misses += 1;
        }
        let ghost missed = probe;
        kret.map.insert(pc, probe);
        assert(kret.map@ =~= old(kret).map@.insert(pc, missed));
        return (0, false);
    }
    probe.nr_instances += 1;
    match &probe.entry_handler {
        Some(handler) => {
            let _ = handler.call(tf, probe.user_data);
            assert(ran(*handler, *old(tf), probe.user_data, *tf));
        },
        None => {},
    }
    let ghost mid = *tf;
    assert(ran_if_any(old(kret).map@[pc].entry_handler, *old(tf), probe.user_data, mid));
    let ghost entered = probe;
    kret.map.insert(pc, probe);
    assert(kret.map@ =~= old(kret).map@.insert(pc, entered));
    let ra = get_trapframe_ra(tf);
    let instance = KRetProbeInstance::new(pc, ra);
    let (bp_addr, page_used) = alloc_breakpoint(pool, fresh_page, ops);
    // save pc and ra to restore trapframe later
    kret.instances.insert(bp_addr, instance);
    set_trapframe_ra(tf, bp_addr);
    proof {
        assert(!slot_in_use(old(pool)@, bp_addr));
        assert(kret.instances@ =~= old(kret).instances@.insert(
            bp_addr,
            KRetProbeInstance { entry_addr: pc, ret_addr: mid.x@[1] },
        ));
    }
    (0, page_used)
}

/// What the hit of a breakpoint slot leaves behind. Where the slot belongs to
/// no call in flight, nothing. Otherwise the exit handler of the function
/// runs with `tf0` and the word of the probe, where the function still has
/// its return probe. Then the function returns to where it was called from,
/// with the return address register set to that address too; the call is no
/// longer in flight and its slot is free again.
pub open spec fn return_probe_left<H: Handler>(
    kret0: &KRetProbes<H>,
    kret1: &KRetProbes<H>,
    pool0: Seq<PageView>,
    pool1: Seq<PageView>,
    tf0: TrapFrame,
    tf1: TrapFrame,
    ops0: Seq<KernelOp>,
    ops1: Seq<KernelOp>,
    handled: bool,
) -> bool {
    let pc = tf0.sepc;
    if !kret0.instances@.contains_key(pc) {
        &&& !handled
        &&& kret1.map@ == kret0.map@
        &&& kret1.instances@ == kret0.instances@
        &&& pool1 == pool0
        &&& tf1 == tf0
        &&& ops1 == ops0
    } else {
        let instance = kret0.instances@[pc];
        &&& handled
        &&& kret1.instances@ == kret0.instances@.remove(pc)
        &&& pool1 == after_free(pool0, pc)
        &&& ops1 == (match page_released(pool0, pc) {
            Some(base) => ops0.push(KernelOp::FreePage { addr: base }),
            None => ops0,
        })
        &&& kret1.map@ == (if kret0.map@.contains_key(instance.entry_addr) {
            let probe = kret0.map@[instance.entry_addr];
            kret0.map@.insert(
                instance.entry_addr,
                KRetProbe {
                    nr_instances: if probe.nr_instances > 0 {
                        (probe.nr_instances - 1) as usize
                    } else {
                        0
                    },
                    ..probe
                },
            )
        } else {
            kret0.map@
        })
        &&& exists|mid: TrapFrame|
            {
                &&& #[trigger] exit_handled(kret0.map@, instance.entry_addr, tf0, mid)
                &&& tf1.sepc == instance.ret_addr
                &&& tf1.x@ == mid.x@.update(1, instance.ret_addr)
                &&& tf1.sstatus == mid.sstatus
            }
    }
}

/// The exit handler of the return probe at `entry_addr` ran once on the
/// registers `before` with the word of the probe, and left `after`; where no
/// return probe is there any more, the registers are as they were.
pub open spec fn exit_handled<H: Handler>(
    probes: Map<usize, KRetProbe<H>>,
    entry_addr: usize,
    before: TrapFrame,
    after: TrapFrame,
) -> bool {
    if probes.contains_key(entry_addr) {
        ran(probes[entry_addr].exit_handler, before, probes[entry_addr].user_data, after)
    } else {
        after == before
    }
}

/// this will be called when the breakpoint in the trampoline area is hit
/// restores trapframe and executes exit_handler
pub fn kretprobe_trap_handler<H: Handler>(
    kret: &mut KRetProbes<H>,
    pool: &mut BreakpointPool,
    tf: &mut TrapFrame,
    ops: &mut Vec<KernelOp>,
) -> (handled: bool)
    requires
        old(pool).wf(),
        old(kret).wf(old(pool)),
    ensures
        final(pool).wf(),
        final(kret).wf(final(pool)),
        return_probe_left(
            old(kret),
            final(kret),
            old(pool)@,
            final(pool)@,
            *old(tf),
            *final(tf),
            old(ops)@,
            final(ops)@,
            handled,
        ),
{
    let pc = get_trapframe_pc(tf);
    let instance = match kret.instances.remove(&pc) {
        Some(instance) => instance,
        None => {
            assert(kret.instances@ =~= old(kret).instances@);
            return false;
        },
    };
    match kret.map.remove(&instance.entry_addr) {
        Some(mut probe) => {
            let _ = probe.exit_handler.call(tf, probe.user_data);
            assert(ran(probe.exit_handler, *old(tf), probe.user_data, *tf));
            if probe.nr_instances > 0 {
                probe.nr_instances -= 1;
            }
            let ghost left = probe;
            kret.map.insert(instance.entry_addr, probe);
            assert(kret.map@ =~= old(kret).map@.insert(instance.entry_addr, left));
        },
        None => {
            assert(kret.map@ =~= old(kret).map@);
        },
    }
    let ghost mid = *tf;
    assert(exit_handled(old(kret).map@, instance.entry_addr, *old(tf), mid));
    let ra = instance.ret_addr;
    set_trapframe_pc(tf, ra);
    set_trapframe_ra(tf, ra);
    free_breakpoint(pool, pc, ops);
    true
}

/// A call that the return probe lets in gets a slot that no call in flight
/// holds. With a quiet entry handler, or none, the slot remembers the
/// address that the function was called from, and nothing changes of the
/// registers but the return address, which is the slot; one call more is in
/// flight and none more is missed.
pub proof fn lemma_quiet_entry<H: Handler>(
    kret0: &KRetProbes<H>,
    kret1: &KRetProbes<H>,
    pool0: Seq<PageView>,
    pool1: Seq<PageView>,
    tf0: TrapFrame,
    tf1: TrapFrame,
    fresh_page: usize,
    ops0: Seq<KernelOp>,
    ops1: Seq<KernelOp>,
    page_used: bool,
)
    requires
        return_probe_entered(
            kret0,
            kret1,
            pool0,
            pool1,
            tf0,
            tf1,
            fresh_page,
            ops0,
            ops1,
            page_used,
        ),
        kret0.map@.contains_key(tf0.sepc),
        kret0.map@[tf0.sepc].nr_instances < kret0.map@[tf0.sepc].instance_limit,
        is_quiet_if_any(kret0.map@[tf0.sepc].entry_handler),
    ensures
        !kret0.instances@.contains_key(next_slot(pool0, fresh_page)),
        kret1.instances@ == kret0.instances@.insert(
            next_slot(pool0, fresh_page),
            KRetProbeInstance { entry_addr: tf0.sepc, ret_addr: tf0.x@[1] },
        ),
        tf1.x@ == tf0.x@.update(1, next_slot(pool0, fresh_page)),
        tf1.sepc == tf0.sepc,
        tf1.sstatus == tf0.sstatus,
        kret1.map@[tf0.sepc].nr_instances == kret0.map@[tf0.sepc].nr_instances + 1,
        kret1.map@[tf0.sepc].nr_misses == kret0.map@[tf0.sepc].nr_misses,
{
    let probe = kret0.map@[tf0.sepc];
    let slot = next_slot(pool0, fresh_page);
    let mid = choose|mid: TrapFrame|
        {
            &&& #[trigger] ran_if_any(probe.entry_handler, tf0, probe.user_data, mid)
            &&& kret1.instances@ == kret0.instances@.insert(
                slot,
                KRetProbeInstance { entry_addr: tf0.sepc, ret_addr: mid.x@[1] },
            )
            &&& tf1.x@ == mid.x@.update(1, slot)
            &&& tf1.sepc == mid.sepc
            &&& tf1.sstatus == mid.sstatus
        };
    assert(mid == tf0);
}

/// When a call in flight returns to its slot and the exit handler of its
/// return probe is quiet, nothing changes of the registers but the program
/// counter and the return address, which both are the address that the
/// function was called from; the call is no longer in flight.
pub proof fn lemma_quiet_return<H: Handler>(
    kret0: &KRetProbes<H>,
    kret1: &KRetProbes<H>,
    pool0: Seq<PageView>,
    pool1: Seq<PageView>,
    tf0: TrapFrame,
    tf1: TrapFrame,
    ops0: Seq<KernelOp>,
    ops1: Seq<KernelOp>,
    handled: bool,
)
    requires
        return_probe_left(kret0, kret1, pool0, pool1, tf0, tf1, ops0, ops1, handled),
        kret0.instances@.contains_key(tf0.sepc),
        kret0.map@.contains_key(kret0.instances@[tf0.sepc].entry_addr),
        is_quiet(kret0.map@[kret0.instances@[tf0.sepc].entry_addr].exit_handler),
        kret0.map@[kret0.instances@[tf0.sepc].entry_addr].nr_instances > 0,
    ensures
        handled,
        tf1.sepc == kret0.instances@[tf0.sepc].ret_addr,
        tf1.x@ == tf0.x@.update(1, kret0.instances@[tf0.sepc].ret_addr),
        tf1.sstatus == tf0.sstatus,
        !kret1.instances@.contains_key(tf0.sepc),
        pool1 == after_free(pool0, tf0.sepc),
        kret1.map@[kret0.instances@[tf0.sepc].entry_addr].nr_instances
            == kret0.map@[kret0.instances@[tf0.sepc].entry_addr].nr_instances - 1,
{
    let instance = kret0.instances@[tf0.sepc];
    let mid = choose|mid: TrapFrame|
        {
            &&& #[trigger] exit_handled(kret0.map@, instance.entry_addr, tf0, mid)
            &&& tf1.sepc == instance.ret_addr
            &&& tf1.x@ == mid.x@.update(1, instance.ret_addr)
            &&& tf1.sstatus == mid.sstatus
        };
    assert(mid == tf0);
}

/// What putting a return probe at `entry_addr` leaves behind. Where the
/// probe underneath can be put (`kprobe_registered`), it is there, hidden,
/// and the return probe is there with what it was given, with no call in
/// flight and none missed. Otherwise no return probe is added.
pub open spec fn kretprobe_registered<H>(
    k0: &KProbes<H>,
    k1: &KProbes<H>,
    kret0: &KRetProbes<H>,
    kret1: &KRetProbes<H>,
    entry_addr: usize,
    args: KRetProbeArgs<H>,
    site: ProbeSite,
    ops0: Seq<KernelOp>,
    ops1: Seq<KernelOp>,
    ok: bool,
) -> bool {
    &&& kprobe_registered(
        k0,
        k1,
        entry_addr,
        PreHandler::ReturnProbe,
        None,
        0,
        site,
        ops0,
        ops1,
        ok,
    )
    &&& kret1.instances@ == kret0.instances@
    &&& ok ==> {
        &&& kret1.map@.dom() == kret0.map@.dom().insert(entry_addr)
        &&& forall|a: usize|
            a != entry_addr && #[trigger] kret0.map@.contains_key(a) ==> kret1.map@[a]
                == kret0.map@[a]
        &&& kret1.map@[entry_addr].exit_handler == args.exit_handler
        &&& kret1.map@[entry_addr].entry_handler == args.entry_handler
        &&& kret1.map@[entry_addr].instance_limit == (match args.limit {
            Some(n) => n,
            None => usize::MAX,
        })
        &&& kret1.map@[entry_addr].user_data == args.user_data
        &&& kret1.map@[entry_addr].nr_instances == 0
        &&& kret1.map@[entry_addr].nr_misses == 0
    }
    &&& !ok ==> kret1.map@ == kret0.map@
}

/// What removing the return probe at `entry_addr` leaves behind. It goes,
/// with the probe underneath, where it is there, no call is in flight, and
/// the probe underneath can go (`kprobe_unregistered`). Otherwise nothing
/// changes.
pub open spec fn kretprobe_unregistered<H>(
    k0: &KProbes<H>,
    k1: &KProbes<H>,
    kret0: &KRetProbes<H>,
    kret1: &KRetProbes<H>,
    entry_addr: usize,
    ops0: Seq<KernelOp>,
    ops1: Seq<KernelOp>,
    ok: bool,
) -> bool {
    &&& kret1.instances@ == kret0.instances@
    &&& if kret0.map@.contains_key(entry_addr) && kret0.map@[entry_addr].nr_instances == 0 {
        &&& kprobe_unregistered(k0, k1, entry_addr, ops0, ops1, ok)
        &&& kret1.map@ == (if ok {
            kret0.map@.remove(entry_addr)
        } else {
            kret0.map@
        })
    } else {
        &&& !ok
        &&& k1.map@ == k0.map@
        &&& k1.addr_map@ == k0.addr_map@
        &&& kret1.map@ == kret0.map@
        &&& ops1 == ops0
    }
}

/// register a kretprobe by registering a kprobe with kretprobe_kprobe_pre_handler as the handler
pub fn register_kretprobe<H>(
    kprobes: &mut KProbes<H>,
    kret: &mut KRetProbes<H>,
    entry_addr: usize,
    args: KRetProbeArgs<H>,
    site: ProbeSite,
    ops: &mut Vec<KernelOp>,
) -> (ok: bool)
    requires
        old(kprobes).wf(),
    ensures
        final(kprobes).wf(),
        kretprobe_registered(
            old(kprobes),
            final(kprobes),
            old(kret),
            final(kret),
            entry_addr,
            args,
            site,
            old(ops)@,
            final(ops)@,
            ok,
        ),
{
    if !register_with(kprobes, entry_addr, PreHandler::ReturnProbe, None, 0, site, ops) {
        return false;
    }
    let probe = KRetProbe::new(args.exit_handler, args.entry_handler, args.limit, args.user_data);
    kret.map.insert(entry_addr, probe);
    assert(kret.map@.dom() =~= old(kret).map@.dom().insert(entry_addr));
    true
}

/// Removes the return probe at `entry_addr`, unless a call is in flight or
/// the probe underneath is being stepped over.
pub fn unregister_kretprobe<H>(
    kprobes: &mut KProbes<H>,
    kret: &mut KRetProbes<H>,
    entry_addr: usize,
    ops: &mut Vec<KernelOp>,
) -> (ok: bool)
    requires
        old(kprobes).wf(),
    ensures
        final(kprobes).wf(),
        kretprobe_unregistered(
            old(kprobes),
            final(kprobes),
            old(kret),
            final(kret),
            entry_addr,
            old(ops)@,
            final(ops)@,
            ok,
        ),
{
    let busy = match kret.map.get(&entry_addr) {
        Some(probe) => probe.nr_instances > 0,
        None => { return false; },
    };
    if busy {
        false
    } else {
        let ok = unregister_kprobe(kprobes, entry_addr, ops);
        if ok {
            let _ = kret.map.remove(&entry_addr);
        }
        ok
    }
}

/// A return probe at the entry of a kernel symbol: none, as no symbol has an
/// address. The page of the site is given back.
pub fn register_kretprobe_with_symbol<H>(
    kprobes: &mut KProbes<H>,
    kret: &mut KRetProbes<H>,
    symbol: &str,
    args: KRetProbeArgs<H>,
    site: ProbeSite,
    ops: &mut Vec<KernelOp>,
) -> (ok: bool)
    requires
        old(kprobes).wf(),
    ensures
        !ok,
        final(kprobes).wf(),
        final(kprobes).map@ == old(kprobes).map@,
        final(kprobes).addr_map@ == old(kprobes).addr_map@,
        final(kret).map@ == old(kret).map@,
        final(kret).instances@ == old(kret).instances@,
        final(ops)@ == old(ops)@.push(KernelOp::FreePage { addr: site.buf }),
{
    if let Some(addr) = symbol_to_addr(symbol) {
        register_kretprobe(kprobes, kret, addr, args, site, ops)
    } else {
        dealloc_page(ops, site.buf);
        false
    }
}

/// Removes the return probe at the entry of a kernel symbol: none, as no
/// symbol has an address.
pub fn unregister_kretprobe_with_symbol<H>(
    kprobes: &mut KProbes<H>,
    kret: &mut KRetProbes<H>,
    symbol: &str,
    ops: &mut Vec<KernelOp>,
) -> (ok: bool)
    requires
        old(kprobes).wf(),
    ensures
        !ok,
        final(kprobes).wf(),
        final(kprobes).map@ == old(kprobes).map@,
        final(kprobes).addr_map@ == old(kprobes).addr_map@,
        final(kret).map@ == old(kret).map@,
        final(kret).instances@ == old(kret).instances@,
        final(ops)@ == old(ops)@,
{
    if let Some(addr) = symbol_to_addr(symbol) {
        unregister_kretprobe(kprobes, kret, addr, ops)
    } else {
        false
    }
}

} // verus!
