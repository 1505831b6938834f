//! The helpers: what a program can ask of the kernel while it runs.
//!
//! Generated code calls a helper by its number, with five words as
//! arguments. The kernel turns the words that are addresses into buffers and
//! hands them to the functions here; what they leave in the buffers and what
//! they return goes back to the program.
use super::map::{
    bpf_map_delete_elem, bpf_map_lookup_elem, bpf_map_update_elem, map_op_done, BpfMapOp,
};
use super::osutil::{copy, os_console_write_str, os_current_time, os_get_current_cpu, ThreadLike};
use super::retcode::BpfResult;
use super::BpfObjects;
use vstd::prelude::*;

verus! {

pub const HELPER_FN_COUNT: usize = 17;

/// The helpers that there are. A number that stands for none of the others
/// stands for `Nop`.
#[derive(Clone, Copy, Debug, PartialEq, Eq, Structural)]
pub enum BpfHelperFn {
    Nop,
    MapLookupElem,
    MapUpdateElem,
    MapDeleteElem,
    KtimeGetNs,
    TracePrintk,
    GetPrandomU32,
    GetSmpProcessorId,
    GetCurrentPidTgid,
    GetCurrentComm,
}

/// The helper that each number stands for, as Linux numbers them.
pub open spec fn helper_fn_table_spec(index: usize) -> BpfHelperFn {
    if index == 1 {
        BpfHelperFn::MapLookupElem
    } else if index == 2 {
        BpfHelperFn::MapUpdateElem
    } else if index == 3 {
        BpfHelperFn::MapDeleteElem
    } else if index == 5 {
        BpfHelperFn::KtimeGetNs
    } else if index == 6 {
        BpfHelperFn::TracePrintk
    } else if index == 7 {
        BpfHelperFn::GetPrandomU32
    } else if index == 8 {
        BpfHelperFn::GetSmpProcessorId
    } else if index == 14 {
        BpfHelperFn::GetCurrentPidTgid
    } else if index == 16 {
        BpfHelperFn::GetCurrentComm
    } else {
        BpfHelperFn::Nop
    }
}

/// The helper in the slot `index` of the table.
#[verifier::when_used_as_spec(helper_fn_table_spec)]
pub fn helper_fn_table(index: usize) -> (helper: BpfHelperFn)
    requires
        index < HELPER_FN_COUNT,
    ensures
        helper == helper_fn_table_spec(index),
{
    if index == 1 {
        BpfHelperFn::MapLookupElem
    } else if index == 2 {
        BpfHelperFn::MapUpdateElem
    } else if index == 3 {
        BpfHelperFn::MapDeleteElem
    } else if index == 5 {
        BpfHelperFn::KtimeGetNs
    } else if index == 6 {
        BpfHelperFn::TracePrintk
    } else if index == 7 {
        BpfHelperFn::GetPrandomU32
    } else if index == 8 {
        BpfHelperFn::GetSmpProcessorId
    } else if index == 14 {
        BpfHelperFn::GetCurrentPidTgid
    } else if index == 16 {
        BpfHelperFn::GetCurrentComm
    } else {
        BpfHelperFn::Nop
    }
}

/// What a helper returns for the result of a map operation: the value, and
/// -1 for any error.
pub open spec fn helper_result(result: BpfResult) -> i64 {
    match result {
        Ok(val) => val as i64,
        Err(_) => -1i64,
    }
}

fn helper_return(result: BpfResult) -> (r: i64)
    ensures
        r == helper_result(result),
{
    match result {
        Ok(val) => #[verifier::truncate] (val as i64),
        Err(_) => -1i64,
    }
}

/// Looks `key` up in the map that the low 32 bits of `fd` name, and copies
/// what it finds into `value`.
pub fn bpf_helper_map_lookup_elem(
    objs: &mut BpfObjects,
    fd: u64,
    key: &[u8],
    value: &mut [u8],
    _4: u64,
    _5: u64,
) -> (r: i64)
    requires
        old(objs).wf(),
    ensures
        final(objs).wf(),
        exists|res: BpfResult| #[trigger]
            map_op_done(
                old(objs),
                final(objs),
                fd as u32,
                BpfMapOp::LookUp,
                key@,
                old(value)@,
                final(value)@,
                0,
                false,
                res,
            ) && r == helper_result(res),
{
    let res = bpf_map_lookup_elem(objs, #[verifier::truncate] (fd as u32), key, value, 0, false);
    assert(map_op_done(
        old(objs),
        objs,
        fd as u32,
        BpfMapOp::LookUp,
        key@,
        old(value)@,
        value@,
        0,
        false,
        res,
    ));
    helper_return(res)
}

/// Stores `value` under `key` in the map that the low 32 bits of `fd` name.
pub fn bpf_helper_map_update_elem(
    objs: &mut BpfObjects,
    fd: u64,
    key: &[u8],
    value: &mut [u8],
    flags: u64,
    _5: u64,
) -> (r: i64)
    requires
        old(objs).wf(),
    ensures
        final(objs).wf(),
        exists|res: BpfResult| #[trigger]
            map_op_done(
                old(objs),
                final(objs),
                fd as u32,
                BpfMapOp::Update,
                key@,
                old(value)@,
                final(value)@,
                flags,
                false,
                res,
            ) && r == helper_result(res),
{
    let res = bpf_map_update_elem(
        objs,
        #[verifier::truncate] (fd as u32),
        key,
        value,
        flags,
        false,
    );
    assert(map_op_done(
        old(objs),
        objs,
        fd as u32,
        BpfMapOp::Update,
        key@,
        old(value)@,
        value@,
        flags,
        false,
        res,
    ));
    helper_return(res)
}

/// Removes `key` from the map that the low 32 bits of `fd` name.
pub fn bpf_helper_map_delete_elem(
    objs: &mut BpfObjects,
    fd: u64,
    key: &[u8],
    _3: u64,
    _4: u64,
    _5: u64,
) -> (r: i64)
    requires
        old(objs).wf(),
    ensures
        final(objs).wf(),
        exists|res: BpfResult| #[trigger]
            map_op_done(
                old(objs),
                final(objs),
                fd as u32,
                BpfMapOp::Delete,
                key@,
                Seq::<u8>::empty(),
                Seq::<u8>::empty(),
                0,
                false,
                res,
            ) && r == helper_result(res),
{
    let mut none: Vec<u8> = Vec::new();
    let res = bpf_map_delete_elem(
        objs,
        #[verifier::truncate] (fd as u32),
        key,
        none.as_mut_slice(),
        0,
        false,
    );
    assert(map_op_done(
        old(objs),
        objs,
        fd as u32,
        BpfMapOp::Delete,
        key@,
        Seq::<u8>::empty(),
        none@,
        0,
        false,
        res,
    ));
    assert(none@ =~= Seq::<u8>::empty());
    helper_return(res)
}

/// The helper of every slot that has no other.
pub fn bpf_helper_nop(_1: u64, _2: u64, _3: u64, _4: u64, _5: u64) -> (r: i64)
    ensures
        r == 0,
{
    0
}

/// u64 bpf_ktime_get_ns(void)
/// return current ktime
///
/// `time_ms` is the kernel's clock in milliseconds.
pub fn bpf_helper_ktime_get_ns(time_ms: usize, _1: u64, _2: u64, _3: u64, _4: u64, _5: u64) -> (r:
    i64)
    ensures
        r == (time_ms * 1_000_000) as i64,
{
    #[verifier::truncate]
    (os_current_time(time_ms) as i64)
}

/// The text that the formatter makes of a format and three values.
pub uninterp spec fn trace_text(fmt: Seq<char>, arg1: u64, arg2: u64, arg3: u64) -> Seq<char>;

/// Formats with `dyn_fmt::Arguments`, which puts the values, in order, in
/// the places of the `{}` of the format, and turns the result into a
/// `String`. The text depends on nothing but the format and the values; the
/// contract gives it a name and says no more.
#[verifier::external_body]
fn format_trace(fmt: &str, arg1: u64, arg2: u64, arg3: u64) -> (text: String)
    ensures
        text@ == trace_text(fmt@, arg1, arg2, arg3),
{
    dyn_fmt::Arguments::new(fmt, &[arg1, arg2, arg3]).to_string()
}

/// Writes a line of trace to the console and says how many bytes it wrote.
pub fn trace_write(console: &mut String, text: &str) -> (r: i64)
    ensures
        final(console)@ == old(console)@ + text@,
        r == text.len() as i64,
{
    os_console_write_str(console, text);
    #[verifier::truncate]
    (text.len() as i64)
}

/// long bpf_trace_printk(const char *fmt, u32 fmt_size, ...)
/// print a format string to kernel logs
///
/// The text goes to the end of `console`; the result is its length in bytes.
pub fn bpf_helper_trace_printk(console: &mut String, fmt: &str, arg1: u64, arg2: u64, arg3: u64) -> (r:
    i64)
    ensures
        final(console)@ == old(console)@ + trace_text(fmt@, arg1, arg2, arg3),
        r == (vstd::utf8::encode_utf8(trace_text(fmt@, arg1, arg2, arg3)).len() as usize) as i64,
{
    let output = format_trace(fmt, arg1, arg2, arg3);
    trace_write(console, output.as_str())
}

/// A pseudorandom number of 32 bits. `random` is what the kernel's generator
/// gave.
pub fn bpf_helper_get_prandom_u32(random: u32, _1: u64, _2: u64, _3: u64, _4: u64, _5: u64) -> (r:
    i64)
    ensures
        r == random,
{
    random as i64
}

/// The number of the hart that runs the program; `hart` is what the kernel
/// read off the machine.
pub fn bpf_helper_get_smp_processor_id(
    hart: u8,
    _1: u64,
    _2: u64,
    _3: u64,
    _4: u64,
    _5: u64,
) -> (r: i64)
    ensures
        r == hart,
{
    os_get_current_cpu(hart) as i64
}

/// The word that holds a process id twice: in the upper half as the id of
/// the thread group, in the lower half as that of the thread.
pub open spec fn pid_tgid_spec(pid: u64) -> i64 {
    ((pid << 32) | pid) as i64
}

#[verifier::when_used_as_spec(pid_tgid_spec)]
pub fn pid_tgid(pid: u64) -> (r: i64)
    ensures
        r == pid_tgid_spec(pid),
{
    #[verifier::truncate]
    (((pid << 32) | pid) as i64)
}

/// The ids of the current thread, which is `thread`.
pub fn bpf_helper_get_current_pid_tgid<T: ThreadLike>(
    thread: &T,
    _1: u64,
    _2: u64,
    _3: u64,
    _4: u64,
    _5: u64,
) -> (r: i64)
    ensures
        exists|pid: u64| r == #[trigger] pid_tgid_spec(pid),
{
    let pid = thread.get_pid();
    // NOTE: tgid is the same with pid
    let r = pid_tgid(pid);
    assert(r == pid_tgid_spec(pid));
    r
}

/// What copying a thread name into a buffer returns, and the buffer after.
/// A name that is longer than the caller says the buffer is, or than the
/// buffer is, gives -1 and leaves the buffer alone. Otherwise the name
/// stands at the start of the buffer, with a zero byte behind it where there
/// is room for one, and the result is the length of the name.
pub open spec fn comm_copied(name: Seq<u8>, dst: Seq<u8>, buf_size: u64) -> (i64, Seq<u8>) {
    if name.len() > buf_size || name.len() > dst.len() {
        (-1i64, dst)
    } else if name.len() < dst.len() {
        (
            name.len() as i64,
            name + seq![0u8] + dst.subrange(name.len() as int + 1, dst.len() as int),
        )
    } else {
        (name.len() as i64, name)
    }
}

/// Copies a thread name into a buffer.
pub fn copy_comm(name: &[u8], dst: &mut [u8], buf_size: u64) -> (r: i64)
    ensures
        (r, final(dst)@) == comm_copied(name@, old(dst)@, buf_size),
{
    let len = name.len();
    if len as u64 > buf_size || len > dst.len() {
        return -1;
    }
    copy(dst, name, len);
    let ghost mid = dst@;
    assert(name@.subrange(0, len as int) =~= name@);
    assert forall|i: int| 0 <= i < len implies mid[i] == name@[i] by {
        assert(mid.subrange(0, len as int)[i] == name@[i]);
    }
    assert forall|i: int| len <= i < mid.len() implies mid[i] == old(dst)@[i] by {
        assert(mid.subrange(len as int, mid.len() as int)[i - len] == old(dst)@.subrange(
            len as int,
            mid.len() as int,
        )[i - len]);
    }
    if len < dst.len() {
        dst[len] = 0;
        assert(dst@ =~= name@ + seq![0u8] + old(dst)@.subrange(len + 1, old(dst)@.len() as int));
    } else {
        assert(dst@ =~= name@);
    }
    #[verifier::truncate]
    (len as i64)
}

/// get current thread name
pub fn bpf_helper_get_current_comm<T: ThreadLike>(
    thread: &T,
    dst: &mut [u8],
    buf_size: u64,
    _1: u64,
    _2: u64,
    _3: u64,
) -> (r: i64)
    ensures
        exists|name: Seq<u8>| (r, final(dst)@) == #[trigger] comm_copied(name, old(dst)@, buf_size),
{
    let name = thread.get_name();
    let name_ptr = name.as_str().as_bytes();
    let r = copy_comm(name_ptr, dst, buf_size);
    assert((r, dst@) == comm_copied(name_ptr@, old(dst)@, buf_size));
    r
}

} // verus!
