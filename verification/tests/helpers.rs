use kernel_ebpf::ebpf::consts::{BpfCommand, BPF_NOEXIST};
use kernel_ebpf::ebpf::helpers::{
    bpf_helper_get_current_comm, bpf_helper_get_current_pid_tgid, bpf_helper_get_prandom_u32,
    bpf_helper_get_smp_processor_id, bpf_helper_ktime_get_ns, bpf_helper_map_delete_elem,
    bpf_helper_map_lookup_elem, bpf_helper_map_update_elem, bpf_helper_nop,
    bpf_helper_trace_printk, copy_comm, helper_fn_table, pid_tgid, trace_write, BpfHelperFn,
    HELPER_FN_COUNT,
};
use kernel_ebpf::ebpf::map::{bpf_map_create, MapAttr, MapOpAttr};
use kernel_ebpf::ebpf::osutil::{
    bytes_equal, convert_result, copy, null_terminated_len, os_console_write_str,
    os_copy_from_user, os_copy_to_user, os_current_time, os_get_current_cpu, sys_bpf_map_create,
    sys_bpf_map_delete_elem, sys_bpf_map_get_next_key, sys_bpf_map_lookup_elem,
    sys_bpf_map_update_elem, ThreadLike,
};
use kernel_ebpf::ebpf::program::{ElfImage, EM_BPF};
use kernel_ebpf::ebpf::retcode::BpfErrorCode;
use kernel_ebpf::ebpf::tracepoints::{AttachedPrograms, TracepointHandlers};
use kernel_ebpf::ebpf::BpfObjects;
use kernel_ebpf::probe::arch::riscv::trapframe::TrapFrame;
use kernel_ebpf::probe::kprobes::{Handler, ProbeSite};
use kernel_ebpf::probe::osutils::{init_osutils, KernelOp};
use kernel_ebpf::probe::Probes;
use kernel_ebpf::syscall::ebpf::{sys_bpf, BpfCallArgs};

struct Task {
    pid: u64,
    name: &'static str,
}

impl ThreadLike for Task {
    fn get_pid(&self) -> u64 {
        self.pid
    }

    fn get_tid(&self) -> u64 {
        0
    }

    fn get_name(&self) -> String {
        self.name.to_string()
    }
}

#[test]
fn helper_table_has_seventeen_slots() {
    assert_eq!(HELPER_FN_COUNT, 17);
    let table: Vec<BpfHelperFn> = (0..HELPER_FN_COUNT).map(helper_fn_table).collect();
    let nop = BpfHelperFn::Nop;
    assert_eq!(
        table,
        vec![
            nop,
            BpfHelperFn::MapLookupElem,
            BpfHelperFn::MapUpdateElem,
            BpfHelperFn::MapDeleteElem,
            nop,
            BpfHelperFn::KtimeGetNs,
            BpfHelperFn::TracePrintk,
            BpfHelperFn::GetPrandomU32,
            BpfHelperFn::GetSmpProcessorId,
            nop,
            nop,
            nop,
            nop,
            nop,
            BpfHelperFn::GetCurrentPidTgid,
            nop,
            BpfHelperFn::GetCurrentComm,
        ]
    );
}

#[test]
fn map_helpers_work_on_kernel_buffers() {
    let mut objs = BpfObjects::new();
    let fd = bpf_map_create(
        &mut objs,
        MapAttr { map_type: 1, key_size: 2, value_size: 2, max_entries: 4 },
    )
    .unwrap() as u64;
    let mut value = [5u8, 6];
    assert_eq!(bpf_helper_map_update_elem(&mut objs, fd, &[1, 2], &mut value, BPF_NOEXIST, 0), 0);
    assert_eq!(bpf_helper_map_update_elem(&mut objs, fd, &[1, 2], &mut value, BPF_NOEXIST, 0), -1);
    assert_eq!(bpf_helper_map_update_elem(&mut objs, fd, &[1, 2], &mut value, 77, 0), -1);
    let mut out = [0u8; 2];
    assert_eq!(bpf_helper_map_lookup_elem(&mut objs, fd, &[1, 2], &mut out, 0, 0), 0);
    assert_eq!(out, [5, 6]);
    // only the low half of the word names the map
    assert_eq!(bpf_helper_map_lookup_elem(&mut objs, fd | (9 << 32), &[1, 2], &mut out, 0, 0), 0);
    let mut miss = [9u8; 2];
    assert_eq!(bpf_helper_map_lookup_elem(&mut objs, fd, &[2, 2], &mut miss, 0, 0), -1);
    assert_eq!(miss, [9, 9]);
    assert_eq!(bpf_helper_map_lookup_elem(&mut objs, fd + 1, &[1, 2], &mut miss, 0, 0), -1);
    assert_eq!(bpf_helper_map_delete_elem(&mut objs, fd, &[1, 2], 0, 0, 0), 0);
    assert_eq!(bpf_helper_map_delete_elem(&mut objs, fd, &[1, 2], 0, 0, 0), -1);
}

#[test]
fn scalar_helpers() {
    assert_eq!(bpf_helper_nop(1, 2, 3, 4, 5), 0);
    assert_eq!(bpf_helper_ktime_get_ns(0, 0, 0, 0, 0, 0), 0);
    assert_eq!(bpf_helper_ktime_get_ns(1234, 0, 0, 0, 0, 0), 1_234_000_000);
    assert_eq!(os_current_time(7), 7_000_000);
    assert_eq!(os_current_time(usize::MAX), usize::MAX as u128 * 1_000_000);
    assert_eq!(bpf_helper_get_prandom_u32(0xdead_beef, 0, 0, 0, 0, 0), 0xdead_beef);
    assert_eq!(bpf_helper_get_smp_processor_id(0, 9, 9, 9, 9, 9), 0);
    assert_eq!(bpf_helper_get_smp_processor_id(3, 9, 9, 9, 9, 9), 3);
    assert_eq!(bpf_helper_get_smp_processor_id(255, 0, 0, 0, 0, 0), 255);
    assert_eq!(os_get_current_cpu(0), 0);
    assert_eq!(os_get_current_cpu(7), 7);
    assert_eq!(pid_tgid(0), 0);
    assert_eq!(pid_tgid(5), (5 << 32) | 5);
    assert_eq!(pid_tgid(0x1_0000_0002), (2 << 32) | 0x1_0000_0002);
    let task = Task { pid: 42, name: "init" };
    assert_eq!(bpf_helper_get_current_pid_tgid(&task, 0, 0, 0, 0, 0), (42 << 32) | 42);
    init_osutils();
}

#[test]
fn trace_printk_formats_and_counts_bytes() {
    let mut console = String::from("> ");
    assert_eq!(bpf_helper_trace_printk(&mut console, "{}a{}b{}c", 1, 2, 3), 6);
    assert_eq!(console, "> 1a2b3c");
    assert_eq!(bpf_helper_trace_printk(&mut console, "pid {}\n", 4242, 0, 0), 9);
    assert_eq!(console, "> 1a2b3cpid 4242\n");
    let mut console = String::new();
    assert_eq!(bpf_helper_trace_printk(&mut console, "{{}}{}", 18446744073709551615, 2, 3), 22);
    assert_eq!(console, "{}18446744073709551615");
    let mut console = String::new();
    assert_eq!(bpf_helper_trace_printk(&mut console, "{} {} {} {}", 7, 8, 9), 6);
    assert_eq!(console, "7 8 9 ");
    assert_eq!(bpf_helper_trace_printk(&mut console, "", 7, 8, 9), 0);
    assert_eq!(trace_write(&mut console, "\u{e9}t\u{e9}"), 5);
    assert_eq!(console, "7 8 9 \u{e9}t\u{e9}");
    os_console_write_str(&mut console, "!");
    assert_eq!(console, "7 8 9 \u{e9}t\u{e9}!");
}

#[test]
fn current_comm_is_copied_with_a_zero_behind_it() {
    let mut dst = [0xffu8; 8];
    assert_eq!(copy_comm(b"init", &mut dst, 8), 4);
    assert_eq!(dst, [b'i', b'n', b'i', b't', 0, 0xff, 0xff, 0xff]);
    let mut dst = [0xffu8; 4];
    assert_eq!(copy_comm(b"init", &mut dst, 4), 4);
    assert_eq!(&dst, b"init");
    let mut dst = [0xffu8; 8];
    assert_eq!(copy_comm(b"init", &mut dst, 3), -1);
    assert_eq!(dst, [0xff; 8]);
    let mut dst = [0xffu8; 3];
    assert_eq!(copy_comm(b"init", &mut dst, 8), -1);
    assert_eq!(copy_comm(b"", &mut dst, 0), 0);
    assert_eq!(dst, [0, 0xff, 0xff]);
    let task = Task { pid: 1, name: "shell" };
    let mut dst = [1u8; 16];
    assert_eq!(bpf_helper_get_current_comm(&task, &mut dst, 16, 0, 0, 0), 5);
    assert_eq!(&dst[..6], b"shell\0");
    assert_eq!(task.get_tid(), 0);
}

#[test]
fn byte_helpers() {
    let mut dst = [1u8, 2, 3, 4];
    copy(&mut dst, &[9, 8, 7], 2);
    assert_eq!(dst, [9, 8, 3, 4]);
    copy(&mut dst, &[5], 0);
    assert_eq!(dst, [9, 8, 3, 4]);
    assert!(bytes_equal(&[1, 2, 3], &[1, 2, 4], 2));
    assert!(!bytes_equal(&[1, 2, 3], &[1, 2, 4], 3));
    assert!(bytes_equal(&[], &[7], 0));
    let pieces = vec![vec![1u8, 2], vec![], vec![3, 4, 5]];
    let mut buf = [0u8; 6];
    assert_eq!(os_copy_from_user(&pieces, &mut buf, 4), 0);
    assert_eq!(buf, [1, 2, 3, 4, 0, 0]);
    assert_eq!(os_copy_from_user(&pieces, &mut buf, 0), 0);
    let mut user = vec![vec![0u8; 2], vec![], vec![0u8; 3], vec![0u8; 1]];
    assert_eq!(os_copy_to_user(&mut user, &[9, 8, 7, 6, 5, 4, 3], 6), 0);
    assert_eq!(user, vec![vec![9, 8], vec![], vec![7, 6, 5], vec![4]]);
    let mut none: Vec<Vec<u8>> = Vec::new();
    assert_eq!(os_copy_to_user(&mut none, &[1, 2], 0), 0);
    assert_eq!(convert_result(Ok(0x70000000)), 0x70000000);
    assert_eq!(convert_result(Ok(0)), 0);
    assert_eq!(convert_result(Err(BpfErrorCode::EAGAIN)), -1);
    assert_eq!(convert_result(Err(BpfErrorCode::EEXIST)), -1);
    assert_eq!(convert_result(Ok(0x1_0000_0005)), 5);
    assert_eq!(BpfErrorCode::EAGAIN.errno(), 11);
    assert_eq!(BpfErrorCode::ENOMEM.errno(), 12);
    assert_eq!(BpfErrorCode::EEXIST.errno(), 17);
    assert_eq!(BpfErrorCode::EINVAL.errno(), 22);
    assert_eq!(BpfErrorCode::ENOENT.errno(), 2);
}

fn map_attr_bytes(map_type: u32, key_size: u32, value_size: u32, max_entries: u32) -> Vec<u8> {
    let mut bytes = Vec::new();
    for n in [map_type, key_size, value_size, max_entries] {
        bytes.extend_from_slice(&n.to_le_bytes());
    }
    bytes
}

fn op_attr_bytes(fd: u32, flags: u64) -> Vec<u8> {
    let mut bytes = Vec::new();
    bytes.extend_from_slice(&fd.to_le_bytes());
    bytes.extend_from_slice(&[0xee; 4]);
    bytes.extend_from_slice(&0x1111u64.to_le_bytes());
    bytes.extend_from_slice(&0x2222u64.to_le_bytes());
    bytes.extend_from_slice(&flags.to_le_bytes());
    bytes
}

#[test]
fn attribute_structs_are_little_endian_with_c_layout() {
    assert_eq!(
        MapAttr::from_bytes(&map_attr_bytes(2, 4, 8, 0x01020304)),
        Some(MapAttr { map_type: 2, key_size: 4, value_size: 8, max_entries: 0x01020304 })
    );
    assert_eq!(MapAttr::from_bytes(&[0; 15]), None);
    assert_eq!(
        MapOpAttr::from_bytes(&op_attr_bytes(0x70000001, 2)),
        Some(MapOpAttr { map_fd: 0x70000001, key: 0x1111, value_or_nextkey: 0x2222, flags: 2 })
    );
    assert_eq!(MapOpAttr::from_bytes(&op_attr_bytes(1, 2)[..31]), None);
}

#[test]
fn map_system_calls() {
    let mut objs = BpfObjects::new();
    assert_eq!(sys_bpf_map_create(&mut objs, &map_attr_bytes(1, 4, 4, 2), 16), 0x70000000);
    assert_eq!(sys_bpf_map_create(&mut objs, &map_attr_bytes(5, 4, 4, 2), 16), -1);
    assert_eq!(sys_bpf_map_create(&mut objs, &[1, 0, 0], 3), -1);
    let fd = 0x70000000;
    let mut value = 10u32.to_le_bytes();
    let key = 1u32.to_le_bytes();
    assert_eq!(sys_bpf_map_update_elem(&mut objs, &op_attr_bytes(fd, 1), 32, &key, &mut value), 0);
    assert_eq!(sys_bpf_map_update_elem(&mut objs, &op_attr_bytes(fd, 1), 32, &key, &mut value), -1);
    assert_eq!(sys_bpf_map_update_elem(&mut objs, &op_attr_bytes(fd, 1)[..8], 8, &key, &mut value), -1);
    let mut out = [0xffu8; 4];
    assert_eq!(sys_bpf_map_lookup_elem(&mut objs, &op_attr_bytes(fd, 0), 32, &key, &mut out), 0);
    assert_eq!(out, 10u32.to_le_bytes());
    let other = 2u32.to_le_bytes();
    assert_eq!(sys_bpf_map_lookup_elem(&mut objs, &op_attr_bytes(fd, 0), 32, &other, &mut out), -1);
    assert_eq!(out, [0; 4]);
    let mut next = [0xffu8; 4];
    assert_eq!(sys_bpf_map_get_next_key(&mut objs, &op_attr_bytes(fd, 0), 32, &other, &mut next), 0);
    assert_eq!(next, key);
    assert_eq!(sys_bpf_map_get_next_key(&mut objs, &op_attr_bytes(fd, 0), 32, &key, &mut next), -1);
    assert_eq!(next, [0; 4]);
    assert_eq!(sys_bpf_map_delete_elem(&mut objs, &op_attr_bytes(fd, 0), 32, &key, &mut next), 0);
    assert_eq!(sys_bpf_map_delete_elem(&mut objs, &op_attr_bytes(fd, 0), 32, &key, &mut next), -1);
    assert_eq!(sys_bpf_map_delete_elem(&mut objs, &op_attr_bytes(fd + 9, 0), 32, &key, &mut next), -1);
}

struct Quiet;

impl Handler for Quiet {
    fn call(&self, _tf: &mut TrapFrame, _data: usize) -> isize {
        0
    }
}

fn quiet() -> TracepointHandlers<Quiet> {
    TracepointHandlers {
        kprobe_handler: Quiet,
        kretprobe_entry_handler: Quiet,
        kretprobe_exit_handler: Quiet,
    }
}

#[test]
fn command_numbers() {
    let all = [
        (BpfCommand::BPF_MAP_CREATE, 0),
        (BpfCommand::BPF_MAP_LOOKUP_ELEM, 1),
        (BpfCommand::BPF_MAP_UPDATE_ELEM, 2),
        (BpfCommand::BPF_MAP_DELETE_ELEM, 3),
        (BpfCommand::BPF_MAP_GET_NEXT_KEY, 4),
        (BpfCommand::BPF_PROG_LOAD, 5),
        (BpfCommand::BPF_PROG_ATTACH, 8),
        (BpfCommand::BPF_PROG_DETACH, 9),
        (BpfCommand::BPF_PROG_LOAD_EX, 1000),
    ];
    for (cmd, number) in all {
        assert_eq!(cmd.number(), number);
        assert_eq!(BpfCommand::try_from(number), Ok(cmd));
    }
    for number in [-1, 6, 7, 10, 999, 1001, i32::MAX, i32::MIN] {
        assert_eq!(BpfCommand::try_from(number), Err(number));
    }
}

#[test]
fn the_system_call_dispatches_by_command() {
    let mut objs = BpfObjects::new();
    let mut attached = AttachedPrograms::new();
    let mut probes: Probes<Quiet> = Probes::new();
    let mut ops: Vec<KernelOp> = Vec::new();
    let image = ElfImage { machine: EM_BPF, sections: Vec::new() };
    let names: Vec<String> = Vec::new();
    let jit = |_: &[u64], _: usize| Vec::<u32>::new();
    let mut call = |cmd: isize, attr: &[u8], key: &[u8], value: &mut [u8]| -> isize {
        let site = ProbeSite { insn: 0x00c58633, buf: 0x9000_0000 };
        let call_args = BpfCallArgs {
            attr,
            key,
            target: "kprobe$0x1000",
            site,
            image: &image,
            map_array: &[],
            names: &names,
        };
        let mut prog = [0u8; 0];
        sys_bpf(
            &mut objs, &mut attached, &mut probes, cmd, attr.len(), &call_args, value, &mut prog,
            quiet(), jit, &mut ops,
        )
    };
    let mut value = 7u32.to_le_bytes();
    let key = 3u32.to_le_bytes();
    assert_eq!(call(0, &map_attr_bytes(1, 4, 4, 8), &[], &mut value), 0x70000000);
    assert_eq!(call(0, &map_attr_bytes(2, 4, 4, 8), &[], &mut value), 0x70000001);
    assert_eq!(call(0, &map_attr_bytes(2, 8, 4, 8), &[], &mut value), -1);
    assert_eq!(call(2, &op_attr_bytes(0x70000000, 0), &key, &mut value), 0);
    let mut out = [0u8; 4];
    assert_eq!(call(1, &op_attr_bytes(0x70000000, 0), &key, &mut out), 0);
    assert_eq!(out, 7u32.to_le_bytes());
    assert_eq!(call(4, &op_attr_bytes(0x70000000, 0), &[0; 4], &mut out), 0);
    assert_eq!(out, key);
    assert_eq!(call(3, &op_attr_bytes(0x70000000, 0), &key, &mut out), 0);
    assert_eq!(call(1, &op_attr_bytes(0x70000000, 0), &key, &mut out), -1);
    // the array map: delete is refused
    assert_eq!(call(3, &op_attr_bytes(0x70000001, 0), &key, &mut out), -1);
    // commands that are not there, and the one that is set aside
    for cmd in [5, 6, 7, 10, -1, 1001, isize::MAX] {
        assert_eq!(call(cmd, &map_attr_bytes(1, 4, 4, 8), &key, &mut out), -1);
    }
    // only the low 32 bits of the number count
    assert_eq!(call((1 << 32) | 0, &map_attr_bytes(1, 4, 4, 8), &[], &mut value), 0x70000002);
    // attach and detach: no program under that handle
    let mut attach = Vec::new();
    attach.extend_from_slice(&0u64.to_le_bytes());
    attach.extend_from_slice(&13u32.to_le_bytes());
    attach.extend_from_slice(&0x70000000u32.to_le_bytes());
    assert_eq!(call(8, &attach, &[], &mut out), -1);
    assert_eq!(call(9, &attach, &[], &mut out), -1);
    // load: the file has no symbol table
    let mut load = Vec::new();
    load.extend_from_slice(&0u64.to_le_bytes());
    load.extend_from_slice(&0u32.to_le_bytes());
    load.extend_from_slice(&0u32.to_le_bytes());
    load.extend_from_slice(&0u64.to_le_bytes());
    assert_eq!(call(1000, &load, &[], &mut out), -1);
    drop(call);
    assert_eq!(ops, vec![KernelOp::FreePage { addr: 0x9000_0000 }]);
}

#[test]
fn a_string_ends_at_its_first_zero_byte() {
    assert_eq!(null_terminated_len(b"mymap\0rest\0"), Some(5));
    assert_eq!(null_terminated_len(b"\0"), Some(0));
    assert_eq!(null_terminated_len(b"\0\0"), Some(0));
    assert_eq!(null_terminated_len(b"abc"), None);
    assert_eq!(null_terminated_len(b""), None);
    assert_eq!(null_terminated_len(&[1, 2, 3, 0]), Some(3));
}
