//! eBPF system call
//!
//! - bpf(2)
use crate::ebpf::consts::BpfCommand;
use crate::ebpf::map::BpfMapOp;
use crate::ebpf::osutil::{
    sys_attach_done, sys_bpf_map_create, sys_bpf_map_delete_elem, sys_bpf_map_get_next_key,
    sys_bpf_map_lookup_elem, sys_bpf_map_update_elem, sys_bpf_program_attach,
    sys_bpf_program_detach, sys_detach_done, sys_map_create_done, sys_map_op_done,
    sys_preprocess_bpf_program_load_ex, sys_preprocess_done,
};
use crate::ebpf::program::{ElfImage, JIT_STACK_SIZE};
use crate::ebpf::tracepoints::{AttachedPrograms, TracepointHandlers};
use crate::ebpf::BpfObjects;
use crate::probe::kprobes::ProbeSite;
use crate::probe::osutils::KernelOp;
use crate::probe::Probes;
use vstd::prelude::*;
use vstd::string::StringSliceAdditionalSpecFns;

verus! {

/// What the kernel has read of user memory for one call: the attribute
/// struct; for the commands on an entry of a map, the key; for
/// `BPF_PROG_ATTACH`, the target text and what it has read and set aside at
/// the address that the text names; for `BPF_PROG_LOAD_EX`, the object file
/// taken apart, the array of map entries and the names that they point to.
/// What a command has no use for is left empty.
pub struct BpfCallArgs<'a> {
    pub attr: &'a [u8],
    pub key: &'a [u8],
    pub target: &'a str,
    pub site: ProbeSite,
    pub image: &'a ElfImage,
    pub map_array: &'a [u8],
    pub names: &'a [String],
}

/// The command that a number stands for, if any.
pub open spec fn command_of(cmd: isize) -> Option<BpfCommand> {
    if exists|c: BpfCommand| c.spec_number() == cmd as i32 {
        Some(choose|c: BpfCommand| c.spec_number() == cmd as i32)
    } else {
        None
    }
}

/// What the system call returns for what a command returned: -1 for
/// anything negative.
pub open spec fn checked_ret(ret: i32) -> isize {
    if ret < 0 {
        -1isize
    } else {
        ret as isize
    }
}

/// Whether tracepoints and probes are as they were.
pub open spec fn probes_idle<H>(
    attached0: &AttachedPrograms,
    attached1: &AttachedPrograms,
    probes0: &Probes<H>,
    probes1: &Probes<H>,
) -> bool {
    &&& attached1.lists@ == attached0.lists@
    &&& probes1.kprobes.map@ == probes0.kprobes.map@
    &&& probes1.kprobes.addr_map@ == probes0.kprobes.addr_map@
    &&& probes1.kretprobes.map@ == probes0.kretprobes.map@
    &&& probes1.kretprobes.instances@ == probes0.kretprobes.instances@
    &&& probes1.breakpoints == probes0.breakpoints
}

/// What the system call leaves behind and returns. A number that stands for
/// no command, and `BPF_PROG_LOAD`, which is set aside, give -1 and change
/// nothing. Every other command does what the function of its name in
/// `osutil` does, and leaves alone what that function does not take.
pub open spec fn sys_bpf_done<H, F: FnOnce(&[u64], usize) -> Vec<u32>>(
    objs0: &BpfObjects,
    objs1: &BpfObjects,
    attached0: &AttachedPrograms,
    attached1: &AttachedPrograms,
    probes0: &Probes<H>,
    probes1: &Probes<H>,
    cmd: isize,
    args: &BpfCallArgs,
    value0: Seq<u8>,
    value1: Seq<u8>,
    prog0: Seq<u8>,
    prog1: Seq<u8>,
    handlers: TracepointHandlers<H>,
    jit: F,
    ops0: Seq<KernelOp>,
    ops1: Seq<KernelOp>,
    r: isize,
) -> bool {
    match command_of(cmd) {
        None | Some(BpfCommand::BPF_PROG_LOAD) => {
            &&& r == -1
            &&& objs1@ == objs0@
            &&& objs1.counter() == objs0.counter()
            &&& probes_idle(attached0, attached1, probes0, probes1)
            &&& value1 == value0
            &&& prog1 == prog0
            &&& ops1 == ops0
        },
        Some(BpfCommand::BPF_MAP_CREATE) => {
            &&& exists|ret: i32| #[trigger]
                sys_map_create_done(objs0, objs1, args.attr@, ret) && r == checked_ret(ret)
            &&& probes_idle(attached0, attached1, probes0, probes1)
            &&& value1 == value0
            &&& prog1 == prog0
            &&& ops1 == ops0
        },
        Some(BpfCommand::BPF_MAP_LOOKUP_ELEM) => {
            &&& exists|ret: i32| #[trigger]
                sys_map_op_done(
                    objs0,
                    objs1,
                    BpfMapOp::LookUp,
                    args.attr@,
                    args.key@,
                    value0,
                    value1,
                    ret,
                ) && r == checked_ret(ret)
            &&& probes_idle(attached0, attached1, probes0, probes1)
            &&& prog1 == prog0
            &&& ops1 == ops0
        },
        Some(BpfCommand::BPF_MAP_UPDATE_ELEM) => {
            &&& exists|ret: i32| #[trigger]
                sys_map_op_done(
                    objs0,
                    objs1,
                    BpfMapOp::Update,
                    args.attr@,
                    args.key@,
                    value0,
                    value1,
                    ret,
                ) && r == checked_ret(ret)
            &&& probes_idle(attached0, attached1, probes0, probes1)
            &&& prog1 == prog0
            &&& ops1 == ops0
        },
        Some(BpfCommand::BPF_MAP_DELETE_ELEM) => {
            &&& exists|ret: i32| #[trigger]
                sys_map_op_done(
                    objs0,
                    objs1,
                    BpfMapOp::Delete,
                    args.attr@,
                    args.key@,
                    value0,
                    value1,
                    ret,
                ) && r == checked_ret(ret)
            &&& probes_idle(attached0, attached1, probes0, probes1)
            &&& prog1 == prog0
            &&& ops1 == ops0
        },
        Some(BpfCommand::BPF_MAP_GET_NEXT_KEY) => {
            &&& exists|ret: i32| #[trigger]
                sys_map_op_done(
                    objs0,
                    objs1,
                    BpfMapOp::GetNextKey,
                    args.attr@,
                    args.key@,
                    value0,
                    value1,
                    ret,
                ) && r == checked_ret(ret)
            &&& probes_idle(attached0, attached1, probes0, probes1)
            &&& prog1 == prog0
            &&& ops1 == ops0
        },
        Some(BpfCommand::BPF_PROG_ATTACH) => {
            &&& exists|ret: i32| #[trigger]
                sys_attach_done(
                    objs0,
                    attached0,
                    attached1,
                    probes0,
                    probes1,
                    args.attr@,
                    args.target.spec_bytes(),
                    args.site,
                    handlers,
                    ops0,
                    ops1,
                    ret,
                ) && r == checked_ret(ret)
            &&& objs1@ == objs0@
            &&& objs1.counter() == objs0.counter()
            &&& value1 == value0
            &&& prog1 == prog0
        },
        Some(BpfCommand::BPF_PROG_DETACH) => {
            &&& exists|ret: i32| #[trigger]
                sys_detach_done(objs0, objs1, attached0, attached1, args.attr@, ret) && r
                    == checked_ret(ret)
            &&& probes1.kprobes.map@ == probes0.kprobes.map@
            &&& probes1.kprobes.addr_map@ == probes0.kprobes.addr_map@
            &&& probes1.kretprobes.map@ == probes0.kretprobes.map@
            &&& probes1.kretprobes.instances@ == probes0.kretprobes.instances@
            &&& probes1.breakpoints == probes0.breakpoints
            &&& value1 == value0
            &&& prog1 == prog0
            &&& ops1 == ops0
        },
        Some(BpfCommand::BPF_PROG_LOAD_EX) => {
            &&& exists|ret: i32| #[trigger]
                sys_preprocess_done(
                    objs0,
                    objs1,
                    args.attr@,
                    prog0,
                    prog1,
                    *args.image,
                    args.map_array@,
                    args.names@,
                    jit,
                    ret,
                ) && r == checked_ret(ret)
            &&& probes_idle(attached0, attached1, probes0, probes1)
            &&& value1 == value0
            &&& ops1 == ops0
        },
    }
}

/// The system call. `value` is the buffer that goes back to the user after
/// a lookup or a step of iteration, and holds the user's value for an
/// update; `prog` is the copy of the user's object file, which loading
/// patches; `ops` collects what the kernel has to do once the call is over.
pub fn sys_bpf<H, F: FnOnce(&[u64], usize) -> Vec<u32>>(
    objs: &mut BpfObjects,
    attached: &mut AttachedPrograms,
    probes: &mut Probes<H>,
    cmd: isize,
    size: usize,
    args: &BpfCallArgs,
    value: &mut [u8],
    prog: &mut [u8],
    handlers: TracepointHandlers<H>,
    jit: F,
    ops: &mut Vec<KernelOp>,
) -> (r: isize)
    requires
        old(objs).wf(),
        old(attached).wf(),
        old(probes).wf(),
        forall|insns: &[u64]| jit.requires((insns, JIT_STACK_SIZE)),
    ensures
        final(objs).wf(),
        final(attached).wf(),
        final(probes).wf(),
        final(prog)@.len() == old(prog)@.len(),
        sys_bpf_done(
            old(objs),
            final(objs),
            old(attached),
            final(attached),
            old(probes),
            final(probes),
            cmd,
            args,
            old(value)@,
            final(value)@,
            old(prog)@,
            final(prog)@,
            handlers,
            jit,
            old(ops)@,
            final(ops)@,
            r,
        ),
{
    let number = #[verifier::truncate] (cmd as i32);
    let bpf_cmd = match BpfCommand::try_from(number) {
        Ok(bpf_cmd) => bpf_cmd,
        Err(_) => {
            assert(command_of(cmd) is None);
            return -1;
        },
    };
    proof {
        assert(bpf_cmd.spec_number() == cmd as i32);
        let chosen = choose|c: BpfCommand| c.spec_number() == cmd as i32;
        crate::ebpf::consts::lemma_command_numbers_distinct(bpf_cmd, chosen);
        assert(command_of(cmd) == Some(bpf_cmd));
    }
    let ret = match bpf_cmd {
        BpfCommand::BPF_MAP_CREATE => sys_bpf_map_create(objs, args.attr, size),
        BpfCommand::BPF_MAP_LOOKUP_ELEM => sys_bpf_map_lookup_elem(
            objs,
            args.attr,
            size,
            args.key,
            value,
        ),
        BpfCommand::BPF_MAP_UPDATE_ELEM => sys_bpf_map_update_elem(
            objs,
            args.attr,
            size,
            args.key,
            value,
        ),
        BpfCommand::BPF_MAP_DELETE_ELEM => sys_bpf_map_delete_elem(
            objs,
            args.attr,
            size,
            args.key,
            value,
        ),
        BpfCommand::BPF_MAP_GET_NEXT_KEY => sys_bpf_map_get_next_key(
            objs,
            args.attr,
            size,
            args.key,
            value,
        ),
        BpfCommand::BPF_PROG_LOAD => { return -1; },
        BpfCommand::BPF_PROG_ATTACH => sys_bpf_program_attach(
            objs,
            attached,
            probes,
            args.attr,
            size,
            args.target,
            args.site,
            handlers,
            ops,
        ),
        BpfCommand::BPF_PROG_DETACH => sys_bpf_program_detach(objs, attached, args.attr, size),
        BpfCommand::BPF_PROG_LOAD_EX => sys_preprocess_bpf_program_load_ex(
            objs,
            args.attr,
            size,
            prog,
            args.image,
            args.map_array,
            args.names,
            jit,
        ),
    };
    proof {
        match bpf_cmd {
            BpfCommand::BPF_MAP_CREATE => {
                assert(sys_map_create_done(old(objs), objs, args.attr@, ret));
            },
            BpfCommand::BPF_MAP_LOOKUP_ELEM => {
                assert(sys_map_op_done(
                    old(objs),
                    objs,
                    BpfMapOp::LookUp,
                    args.attr@,
                    args.key@,
                    old(value)@,
                    value@,
                    ret,
                ));
            },
            BpfCommand::BPF_MAP_UPDATE_ELEM => {
                assert(sys_map_op_done(
                    old(objs),
                    objs,
                    BpfMapOp::Update,
                    args.attr@,
                    args.key@,
                    old(value)@,
                    value@,
                    ret,
                ));
            },
            BpfCommand::BPF_MAP_DELETE_ELEM => {
                assert(sys_map_op_done(
                    old(objs),
                    objs,
                    BpfMapOp::Delete,
                    args.attr@,
                    args.key@,
                    old(value)@,
                    value@,
                    ret,
                ));
            },
            BpfCommand::BPF_MAP_GET_NEXT_KEY => {
                assert(sys_map_op_done(
                    old(objs),
                    objs,
                    BpfMapOp::GetNextKey,
                    args.attr@,
                    args.key@,
                    old(value)@,
                    value@,
                    ret,
                ));
            },
            BpfCommand::BPF_PROG_ATTACH => {
                assert(sys_attach_done(
                    old(objs),
                    old(attached),
                    attached,
                    old(probes),
                    probes,
                    args.attr@,
                    args.target.spec_bytes(),
                    args.site,
                    handlers,
                    old(ops)@,
                    ops@,
                    ret,
                ));
            },
            BpfCommand::BPF_PROG_DETACH => {
                assert(sys_detach_done(old(objs), objs, old(attached), attached, args.attr@, ret));
            },
            BpfCommand::BPF_PROG_LOAD_EX => {
                assert(sys_preprocess_done(
                    old(objs),
                    objs,
                    args.attr@,
                    old(prog)@,
                    prog@,
                    *args.image,
                    args.map_array@,
                    args.names@,
                    jit,
                    ret,
                ));
            },
            _ => {},
        }
    }
    if ret < 0 {
        -1
    } else {
        ret as isize
    }
}

} // verus!
