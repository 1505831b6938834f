//! Breakpoint-based probes.
use self::arch::riscv::breakpoint::{is_fresh_page, BreakpointPool};
use self::arch::riscv::trapframe::TrapFrame;
use self::kprobes::{kprobe_trap_handler, kprobe_trapped, Handler, KProbes, ProbeSite};
use self::kretprobes::{kretprobe_trap_handler, return_probe_left, KRetProbes};
use self::osutils::KernelOp;
use vstd::prelude::*;

pub mod arch;
pub mod kprobes;
pub mod kretprobes;
pub mod osutils;

verus! {

/// What a probe is registered with: the handler that runs before the probed
/// instruction, the handler that runs after it, if any, and a word that both
/// are given as it is.
pub struct KProbeArgs<H> {
    pub pre_handler: H,
    pub post_handler: Option<H>,
    pub user_data: usize,
}

impl<H> KProbeArgs<H> {
    pub fn from(handler: H) -> (args: Self)
        ensures
            args.pre_handler == handler,
            args.post_handler is None,
            args.user_data == 0,
    {
        Self { pre_handler: handler, post_handler: None, user_data: 0 }
    }
}

/// What a return probe is registered with: the handler that runs when the
/// function returns, the handler that runs when it is entered, if any, the
/// number of calls that may be in flight at once, if it is limited, and a
/// word that both handlers are given as it is.
pub struct KRetProbeArgs<H> {
    pub exit_handler: H,
    pub entry_handler: Option<H>,
    pub limit: Option<usize>,
    pub user_data: usize,
}

impl<H> KRetProbeArgs<H> {
    pub fn from(handler: H) -> (args: Self)
        ensures
            args.exit_handler == handler,
            args.entry_handler is None,
            args.limit is None,
            args.user_data == 0,
    {
        Self { exit_handler: handler, entry_handler: None, limit: None, user_data: 0 }
    }
}

/// All that the probe engine keeps: the probes on instructions, the return
/// probes with their calls in flight, and the pool of breakpoint slots.
pub struct Probes<H> {
    pub kprobes: KProbes<H>,
    pub kretprobes: KRetProbes<H>,
    pub breakpoints: BreakpointPool,
}

impl<H> Probes<H> {
    pub open spec fn wf(&self) -> bool {
        &&& self.kprobes.wf()
        &&& self.breakpoints.wf()
        &&& self.kretprobes.wf(&self.breakpoints)
    }

    /// An engine without probes.
    pub fn new() -> (probes: Self)
        ensures
            probes.wf(),
    {
        let probes = Probes {
            kprobes: KProbes::new(),
            kretprobes: KRetProbes::new(),
            breakpoints: BreakpointPool::new(),
        };
        assert forall|a: usize| !#[trigger] self::arch::riscv::breakpoint::slot_in_use(
            probes.breakpoints@,
            a,
        ) by {}
        probes
    }
}

/// `kprobes::register_kprobe`, with the result as an option.
pub fn register_kprobe<H>(
    probes: &mut Probes<H>,
    addr: usize,
    args: KProbeArgs<H>,
    site: ProbeSite,
    ops: &mut Vec<KernelOp>,
) -> (r: Option<()>)
    requires
        old(probes).wf(),
    ensures
        final(probes).wf(),
        final(probes).kretprobes == old(probes).kretprobes,
        final(probes).breakpoints == old(probes).breakpoints,
        kprobes::kprobe_registered(
            &old(probes).kprobes,
            &final(probes).kprobes,
            addr,
            kprobes::PreHandler::Call(args.pre_handler),
            args.post_handler,
            args.user_data,
            site,
            old(ops)@,
            final(ops)@,
            r is Some,
        ),
{
    match kprobes::register_kprobe(&mut probes.kprobes, addr, args, site, ops) {
        true => Some(()),
        false => None,
    }
}

/// `kprobes::unregister_kprobe`, with the result as an option.
pub fn unregister_kprobe<H>(probes: &mut Probes<H>, addr: usize, ops: &mut Vec<KernelOp>) -> (r:
    Option<()>)
    requires
        old(probes).wf(),
    ensures
        final(probes).wf(),
        final(probes).kretprobes == old(probes).kretprobes,
        final(probes).breakpoints == old(probes).breakpoints,
        kprobes::kprobe_unregistered(
            &old(probes).kprobes,
            &final(probes).kprobes,
            addr,
            old(ops)@,
            final(ops)@,
            r is Some,
        ),
{
    match kprobes::unregister_kprobe(&mut probes.kprobes, addr, ops) {
        true => Some(()),
        false => None,
    }
}

/// `kretprobes::register_kretprobe`, with the result as an option.
pub fn register_kretprobe<H>(
    probes: &mut Probes<H>,
    addr: usize,
    args: KRetProbeArgs<H>,
    site: ProbeSite,
    ops: &mut Vec<KernelOp>,
) -> (r: Option<()>)
    requires
        old(probes).wf(),
    ensures
        final(probes).wf(),
        final(probes).breakpoints == old(probes).breakpoints,
        kretprobes::kretprobe_registered(
            &old(probes).kprobes,
            &final(probes).kprobes,
            &old(probes).kretprobes,
            &final(probes).kretprobes,
            addr,
            args,
            site,
            old(ops)@,
            final(ops)@,
            r is Some,
        ),
{
    match kretprobes::register_kretprobe(
        &mut probes.kprobes,
        &mut probes.kretprobes,
        addr,
        args,
        site,
        ops,
    ) {
        true => Some(()),
        false => None,
    }
}

/// `kretprobes::unregister_kretprobe`, with the result as an option.
pub fn unregister_kretprobe<H>(probes: &mut Probes<H>, addr: usize, ops: &mut Vec<KernelOp>) -> (r:
    Option<()>)
    requires
        old(probes).wf(),
    ensures
        final(probes).wf(),
        final(probes).breakpoints == old(probes).breakpoints,
        kretprobes::kretprobe_unregistered(
            &old(probes).kprobes,
            &final(probes).kprobes,
            &old(probes).kretprobes,
            &final(probes).kretprobes,
            addr,
            old(ops)@,
            final(ops)@,
            r is Some,
        ),
{
    match kretprobes::unregister_kretprobe(&mut probes.kprobes, &mut probes.kretprobes, addr, ops) {
        true => Some(()),
        false => None,
    }
}

/// This function should be called from the trap handler when a breakpoint is hit.
///
/// The probes on instructions are asked first; what they do not handle goes
/// to the return probes. `fresh_page` is a page that the engine may take for
/// breakpoint slots; the result says whether it did.
pub fn kprobes_breakpoint_handler<H: Handler>(
    probes: &mut Probes<H>,
    tf: &mut TrapFrame,
    fresh_page: usize,
    ops: &mut Vec<KernelOp>,
) -> (page_used: bool)
    requires
        old(probes).wf(),
        is_fresh_page(old(probes).breakpoints@, fresh_page),
    ensures
        final(probes).wf(),
        if old(probes).kprobes.map@.contains_key(old(tf).sepc)
            || old(probes).kprobes.addr_map@.contains_key(old(tf).sepc) {
            kprobe_trapped(
                &old(probes).kprobes,
                &final(probes).kprobes,
                &old(probes).kretprobes,
                &final(probes).kretprobes,
                old(probes).breakpoints@,
                final(probes).breakpoints@,
                *old(tf),
                *final(tf),
                fresh_page,
                old(ops)@,
                final(ops)@,
                true,
                page_used,
            )
        } else {
            &&& !page_used
            &&& final(probes).kprobes.map@ == old(probes).kprobes.map@
            &&& final(probes).kprobes.addr_map@ == old(probes).kprobes.addr_map@
            &&& return_probe_left(
                &old(probes).kretprobes,
                &final(probes).kretprobes,
                old(probes).breakpoints@,
                final(probes).breakpoints@,
                *old(tf),
                *final(tf),
                old(ops)@,
                final(ops)@,
                old(probes).kretprobes.instances@.contains_key(old(tf).sepc),
            )
        },
{
    let (handled, page_used) = kprobe_trap_handler(
        &mut probes.kprobes,
        &mut probes.kretprobes,
        &mut probes.breakpoints,
        tf,
        fresh_page,
        ops,
    );
    if !handled {
        let _ = kretprobe_trap_handler(&mut probes.kretprobes, &mut probes.breakpoints, tf, ops);
    }
    page_used
}

} // verus!
