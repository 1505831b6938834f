//! What the subsystem needs of the kernel around it, and the byte-level
//! helpers that the maps and the system call layer share.
//!
//! The kernel reads and writes user memory, knows the time and the current
//! thread, and owns the console. The functions here take what the kernel has
//! read and give back what it is to write.
use super::map::{
    bpf_map_create, bpf_map_delete_elem, bpf_map_get_next_key, bpf_map_lookup_elem,
    bpf_map_update_elem, map_created, map_op_done, BpfMapOp, MapAttr, MapOpAttr,
};
use super::program::{
    bpf_program_load_ex, ElfImage, MapFdEntry, ProgramLoadExAttr, JIT_STACK_SIZE,
};
use super::retcode::BpfResult;
use super::tracepoints::{
    attach_done, bpf_program_attach, bpf_program_detach, detach_done, AttachedPrograms,
    KprobeAttachAttr, TracepointHandlers,
};
use super::BpfObjects;
use crate::probe::kprobes::ProbeSite;
use crate::probe::osutils::KernelOp;
use crate::probe::Probes;
use vstd::prelude::*;
use vstd::string::{StringExecFns, StringSliceAdditionalSpecFns};

verus! {

/// Copies the first `len` bytes of `src` over the first `len` bytes of `dst`.
pub fn copy(dst: &mut [u8], src: &[u8], len: usize)
    requires
        len <= old(dst)@.len(),
        len <= src@.len(),
    ensures
        final(dst)@.len() == old(dst)@.len(),
        final(dst)@.subrange(0, len as int) == src@.subrange(0, len as int),
        final(dst)@.subrange(len as int, old(dst)@.len() as int) == old(dst)@.subrange(
            len as int,
            old(dst)@.len() as int,
        ),
{
    let mut i: usize = 0;
    while i < len
        invariant
            i <= len,
            len <= src@.len(),
            dst@.len() == old(dst)@.len(),
            len <= dst@.len(),
            forall|j: int| 0 <= j < i ==> dst@[j] == src@[j],
            forall|j: int| i <= j < dst@.len() ==> dst@[j] == old(dst)@[j],
        decreases len - i,
    {
        dst[i] = src[i];
        i += 1;
    }
    assert(dst@.subrange(0, len as int) =~= src@.subrange(0, len as int));
    assert(dst@.subrange(len as int, old(dst)@.len() as int) =~= old(dst)@.subrange(
        len as int,
        old(dst)@.len() as int,
    ));
}

/// Whether the first `len` bytes of `u` and of `v` are the same.
pub fn bytes_equal(u: &[u8], v: &[u8], len: usize) -> (same: bool)
    requires
        len <= u@.len(),
        len <= v@.len(),
    ensures
        same == (u@.subrange(0, len as int) == v@.subrange(0, len as int)),
{
    let mut i: usize = 0;
    while i < len
        invariant
            i <= len,
            len <= u@.len(),
            len <= v@.len(),
            forall|j: int| 0 <= j < i ==> u@[j] == v@[j],
        decreases len - i,
    {
        if u[i] != v[i] {
            assert(u@.subrange(0, len as int)[i as int] != v@.subrange(0, len as int)[i as int]);
            return false;
        }
        i += 1;
    }
    assert(u@.subrange(0, len as int) =~= v@.subrange(0, len as int));
    true
}

} // verus!

verus! {

/// The address at which a vector keeps its items.
///
/// Calls `Vec::as_ptr` and gives the pointer as a number. Nothing is said of
/// the number: where the items lie is for the allocator to decide.
#[verifier::external_body]
pub(crate) fn buffer_addr<T>(v: &Vec<T>) -> (addr: usize) {
    v.as_ptr() as usize
}

} // verus!

verus! {

/// ThreadLike is an analog for Linux thread
pub trait ThreadLike {
    fn get_pid(&self) -> u64;

    fn get_tid(&self) -> u64;

    fn get_name(&self) -> String;
}

/// The time in nanoseconds, given the kernel's clock in milliseconds.
pub fn os_current_time(time_ms: usize) -> (ns: u128)
    ensures
        ns == time_ms * 1_000_000,
{
    time_ms as u128 * 1_000_000
}

/// The number of the hart that runs the caller. Which hart that is only
/// the kernel can read off the machine: `hart` is what it read.
pub fn os_get_current_cpu(hart: u8) -> (cpu: u8)
    ensures
        cpu == hart,
{
    hart
}

/// Writes a string to the kernel log, which `console` collects.
pub fn os_console_write_str(console: &mut String, s: &str)
    ensures
        final(console)@ == old(console)@ + s@,
{
    console.append(s);
}

/// Where the first zero byte of `bytes` stands, if there is one: the length
/// of the string that a zero byte ends.
pub open spec fn terminator(bytes: Seq<u8>) -> Option<int> {
    if exists|i: int| 0 <= i < bytes.len() && bytes[i] == 0 {
        Some(choose|i: int| is_terminator(bytes, i))
    } else {
        None
    }
}

/// The byte at `at` is zero and none before it is.
pub open spec fn is_terminator(bytes: Seq<u8>, at: int) -> bool {
    &&& 0 <= at < bytes.len()
    &&& bytes[at] == 0
    &&& forall|j: int| 0 <= j < at ==> bytes[j] != 0
}

/// The length of the string at the start of `bytes` that a zero byte ends;
/// none where `bytes` has no zero byte, so that the string goes on beyond
/// them.
pub fn null_terminated_len(bytes: &[u8]) -> (r: Option<usize>)
    ensures
        match r {
            Some(n) => is_terminator(bytes@, n as int),
            None => forall|j: int| 0 <= j < bytes@.len() ==> bytes@[j] != 0,
        },
        r is Some <==> terminator(bytes@) is Some,
        r matches Some(n) ==> terminator(bytes@) == Some(n as int),
{
    let mut i: usize = 0;
    while i < bytes.len()
        invariant
            i <= bytes@.len(),
            forall|j: int| 0 <= j < i ==> bytes@[j] != 0,
        decreases bytes@.len() - i,
    {
        if bytes[i] == 0 {
            proof {
                lemma_terminator(bytes@, i as int);
            }
            return Some(i);
        }
        i += 1;
    }
    None
}

/// There is one place at most where a string ends.
pub proof fn lemma_terminator(bytes: Seq<u8>, at: int)
    requires
        is_terminator(bytes, at),
    ensures
        terminator(bytes) == Some(at),
{
    let other = choose|i: int| is_terminator(bytes, i);
    assert(is_terminator(bytes, other));
    if other < at {
        assert(bytes[other] != 0);
    } else if at < other {
        assert(bytes[at] != 0);
    }
}

/// The bytes of the pieces one after the other.
pub open spec fn joined(pieces: Seq<Vec<u8>>) -> Seq<u8>
    decreases pieces.len(),
{
    if pieces.len() == 0 {
        Seq::empty()
    } else {
        joined(pieces.drop_last()) + pieces.last()@
    }
}

/// Copies `len` bytes that lie in user space into `kern_buf`. `pieces` is
/// the user memory from the address in question on, page by page as the
/// kernel sees it.
pub fn os_copy_from_user(pieces: &Vec<Vec<u8>>, kern_buf: &mut [u8], len: usize) -> (r: i32)
    requires
        len <= joined(pieces@).len(),
        len <= old(kern_buf)@.len(),
    ensures
        r == 0,
        final(kern_buf)@.len() == old(kern_buf)@.len(),
        final(kern_buf)@.subrange(0, len as int) == joined(pieces@).subrange(0, len as int),
        final(kern_buf)@.subrange(len as int, old(kern_buf)@.len() as int)
            == old(kern_buf)@.subrange(len as int, old(kern_buf)@.len() as int),
{
    let mut all: Vec<u8> = Vec::new();
    let mut i: usize = 0;
    while i < pieces.len()
        invariant
            i <= pieces@.len(),
            all@ == joined(pieces@.subrange(0, i as int)),
        decreases pieces@.len() - i,
    {
        assert(pieces@.subrange(0, i + 1).drop_last() =~= pieces@.subrange(0, i as int));
        all.extend_from_slice(pieces[i].as_slice());
        i += 1;
    }
    assert(pieces@.subrange(0, i as int) =~= pieces@);
    copy(kern_buf, all.as_slice(), len);
    0
}

/// The lengths of the pieces, piece by piece.
pub open spec fn piece_lens(pieces: Seq<Vec<u8>>) -> Seq<nat> {
    Seq::new(pieces.len(), |i: int| pieces[i]@.len())
}

/// The first pieces of a list are no longer, joined, than all of them.
proof fn lemma_joined_grows(pieces: Seq<Vec<u8>>, n: int)
    requires
        0 <= n <= pieces.len(),
    ensures
        joined(pieces.subrange(0, n)).len() <= joined(pieces).len(),
    decreases pieces.len() - n,
{
    if n == pieces.len() {
        assert(pieces.subrange(0, n) =~= pieces);
    } else {
        lemma_joined_grows(pieces, n + 1);
        assert(pieces.subrange(0, n + 1).drop_last() =~= pieces.subrange(0, n));
    }
}

/// Pieces of the same lengths are as long when joined.
proof fn lemma_joined_len(a: Seq<Vec<u8>>, b: Seq<Vec<u8>>)
    requires
        piece_lens(a) == piece_lens(b),
    ensures
        joined(a).len() == joined(b).len(),
    decreases a.len(),
{
    assert(a.len() == piece_lens(a).len());
    assert(b.len() == piece_lens(b).len());
    if a.len() > 0 {
        assert(piece_lens(a.drop_last()) =~= piece_lens(a).drop_last());
        assert(piece_lens(b.drop_last()) =~= piece_lens(b).drop_last());
        lemma_joined_len(a.drop_last(), b.drop_last());
        assert(a.last()@.len() == piece_lens(a)[a.len() - 1]);
        assert(b.last()@.len() == piece_lens(b)[b.len() - 1]);
    }
}

/// Copies `len` bytes from `kern_buf` to user space. `pieces` stands for the
/// user memory that takes them, page by page as the kernel sees it: each
/// piece is filled, and keeps its length. The pieces hold `len` bytes in all.
pub fn os_copy_to_user(pieces: &mut Vec<Vec<u8>>, kern_buf: &[u8], len: usize) -> (r: i32)
    requires
        joined(old(pieces)@).len() == len,
        len <= kern_buf@.len(),
    ensures
        r == 0,
        piece_lens(final(pieces)@) == piece_lens(old(pieces)@),
        joined(final(pieces)@) == kern_buf@.subrange(0, len as int),
{
    let total = kern_buf.len();
    let mut done: usize = 0;
    let mut i: usize = 0;
    while i < pieces.len()
        invariant
            i <= pieces@.len(),
            pieces@.len() == old(pieces)@.len(),
            piece_lens(pieces@) == piece_lens(old(pieces)@),
            joined(old(pieces)@).len() == len,
            len <= kern_buf@.len() == total,
            done == joined(pieces@.subrange(0, i as int)).len(),
            joined(pieces@.subrange(0, i as int)) == kern_buf@.subrange(0, done as int),
        decreases pieces@.len() - i,
    {
        let ghost before = pieces@;
        proof {
            lemma_joined_len(pieces@, old(pieces)@);
            lemma_joined_grows(pieces@, i + 1);
            assert(pieces@.subrange(0, i + 1).drop_last() =~= pieces@.subrange(0, i as int));
            assert(pieces@.subrange(0, i + 1).last() == pieces@[i as int]);
        }
        let piece_len = pieces[i].len();
        let part = vstd::slice::slice_subrange(kern_buf, done, done + piece_len);
        copy(pieces[i].as_mut_slice(), part, piece_len);
        proof {
            assert(pieces@[i as int]@ =~= part@) by {
                assert(pieces@[i as int]@ =~= pieces@[i as int]@.subrange(0, piece_len as int));
                assert(part@ =~= part@.subrange(0, piece_len as int));
            }
            assert(pieces@.len() == before.len());
            assert forall|k: int| 0 <= k < before.len() && k != i implies pieces@[k]
                == before[k] by {}
            assert(piece_lens(pieces@) =~= piece_lens(before));
            assert(pieces@.subrange(0, i as int) =~= before.subrange(0, i as int));
            assert(pieces@.subrange(0, i + 1).drop_last() =~= pieces@.subrange(0, i as int));
            assert(pieces@.subrange(0, i + 1).last() == pieces@[i as int]);
            assert(joined(pieces@.subrange(0, i + 1)) =~= kern_buf@.subrange(
                0,
                done + piece_len,
            ));
        }
        done += piece_len;
        i += 1;
    }
    proof {
        assert(pieces@.subrange(0, i as int) =~= pieces@);
        lemma_joined_len(pieces@, old(pieces)@);
    }
    0
}

/// convert a `BpfResult` to `i32` for syscall interface
pub fn convert_result(result: BpfResult) -> (r: i32)
    ensures
        r == convert_result_spec(result),
{
    match result {
        Ok(val) => #[verifier::truncate] (val as i32),
        Err(_) => -1,
    }
}

/// What the system call returns for a result: the low 32 bits of a value,
/// and -1 for any error.
pub open spec fn convert_result_spec(result: BpfResult) -> i32 {
    match result {
        Ok(val) => val as i32,
        Err(_) => -1i32,
    }
}

/// What `sys_bpf_map_create` leaves behind and returns for the attribute
/// bytes `attr`: bytes that hold no attributes give -1 and change nothing.
pub open spec fn sys_map_create_done(
    before: &BpfObjects,
    after: &BpfObjects,
    attr: Seq<u8>,
    ret: i32,
) -> bool {
    match MapAttr::spec_from_bytes(attr) {
        None => ret == -1 && after@ == before@ && after.counter() == before.counter(),
        Some(a) => exists|res: BpfResult| #[trigger]
            map_created(before, after, a, res) && ret == convert_result_spec(res),
    }
}

/// `BPF_MAP_CREATE`: creates the map that the attribute bytes describe.
pub fn sys_bpf_map_create(objs: &mut BpfObjects, attr: &[u8], size: usize) -> (ret: i32)
    requires
        old(objs).wf(),
    ensures
        final(objs).wf(),
        sys_map_create_done(old(objs), final(objs), attr@, ret),
{
    let map_attr = match MapAttr::from_bytes(attr) {
        Some(map_attr) => map_attr,
        None => { return -1; },
    };
    let res = bpf_map_create(objs, map_attr);
    assert(map_created(old(objs), objs, map_attr, res));
    convert_result(res)
}

/// What a system call on one entry of a map leaves behind and returns.
/// `value0` and `value1` are the copy of the user's buffer before and after;
/// the kernel copies it back to user space.
pub open spec fn sys_map_op_done(
    before: &BpfObjects,
    after: &BpfObjects,
    op: BpfMapOp,
    attr: Seq<u8>,
    key: Seq<u8>,
    value0: Seq<u8>,
    value1: Seq<u8>,
    ret: i32,
) -> bool {
    match MapOpAttr::spec_from_bytes(attr) {
        None => ret == -1 && after@ == before@ && after.counter() == before.counter() && value1
            == value0,
        Some(a) => exists|res: BpfResult| #[trigger]
            map_op_done(before, after, a.map_fd, op, key, value0, value1, a.flags, true, res)
                && ret == convert_result_spec(res),
    }
}

/// `BPF_MAP_LOOKUP_ELEM`. `key` is the copy of the user's key, `value` the
/// buffer that goes back to the user.
pub fn sys_bpf_map_lookup_elem(
    objs: &mut BpfObjects,
    attr: &[u8],
    size: usize,
    key: &[u8],
    value: &mut [u8],
) -> (ret: i32)
    requires
        old(objs).wf(),
    ensures
        final(objs).wf(),
        sys_map_op_done(
            old(objs),
            final(objs),
            BpfMapOp::LookUp,
            attr@,
            key@,
            old(value)@,
            final(value)@,
            ret,
        ),
{
    let map_op_attr = match MapOpAttr::from_bytes(attr) {
        Some(map_op_attr) => map_op_attr,
        None => { return -1; },
    };
    let res = bpf_map_lookup_elem(objs, map_op_attr.map_fd, key, value, map_op_attr.flags, true);
    assert(map_op_done(
        old(objs),
        objs,
        map_op_attr.map_fd,
        BpfMapOp::LookUp,
        key@,
        old(value)@,
        value@,
        map_op_attr.flags,
        true,
        res,
    ));
    convert_result(res)
}

/// `BPF_MAP_UPDATE_ELEM`. `key` and `value` are the copies of the user's key
/// and value.
pub fn sys_bpf_map_update_elem(
    objs: &mut BpfObjects,
    attr: &[u8],
    size: usize,
    key: &[u8],
    value: &mut [u8],
) -> (ret: i32)
    requires
        old(objs).wf(),
    ensures
        final(objs).wf(),
        sys_map_op_done(
            old(objs),
            final(objs),
            BpfMapOp::Update,
            attr@,
            key@,
            old(value)@,
            final(value)@,
            ret,
        ),
{
    let map_op_attr = match MapOpAttr::from_bytes(attr) {
        Some(map_op_attr) => map_op_attr,
        None => { return -1; },
    };
    let res = bpf_map_update_elem(objs, map_op_attr.map_fd, key, value, map_op_attr.flags, true);
    assert(map_op_done(
        old(objs),
        objs,
        map_op_attr.map_fd,
        BpfMapOp::Update,
        key@,
        old(value)@,
        value@,
        map_op_attr.flags,
        true,
        res,
    ));
    convert_result(res)
}

/// `BPF_MAP_DELETE_ELEM`. `key` is the copy of the user's key.
pub fn sys_bpf_map_delete_elem(
    objs: &mut BpfObjects,
    attr: &[u8],
    size: usize,
    key: &[u8],
    value: &mut [u8],
) -> (ret: i32)
    requires
        old(objs).wf(),
    ensures
        final(objs).wf(),
        sys_map_op_done(
            old(objs),
            final(objs),
            BpfMapOp::Delete,
            attr@,
            key@,
            old(value)@,
            final(value)@,
            ret,
        ),
{
    let map_op_attr = match MapOpAttr::from_bytes(attr) {
        Some(map_op_attr) => map_op_attr,
        None => { return -1; },
    };
    let res = bpf_map_delete_elem(objs, map_op_attr.map_fd, key, value, map_op_attr.flags, true);
    assert(map_op_done(
        old(objs),
        objs,
        map_op_attr.map_fd,
        BpfMapOp::Delete,
        key@,
        old(value)@,
        value@,
        map_op_attr.flags,
        true,
        res,
    ));
    convert_result(res)
}

/// `BPF_MAP_GET_NEXT_KEY`. `key` is the copy of the user's key, `value` the
/// buffer for the next key, which goes back to the user.
pub fn sys_bpf_map_get_next_key(
    objs: &mut BpfObjects,
    attr: &[u8],
    size: usize,
    key: &[u8],
    value: &mut [u8],
) -> (ret: i32)
    requires
        old(objs).wf(),
    ensures
        final(objs).wf(),
        sys_map_op_done(
            old(objs),
            final(objs),
            BpfMapOp::GetNextKey,
            attr@,
            key@,
            old(value)@,
            final(value)@,
            ret,
        ),
{
    let map_op_attr = match MapOpAttr::from_bytes(attr) {
        Some(map_op_attr) => map_op_attr,
        None => { return -1; },
    };
    let res = bpf_map_get_next_key(objs, map_op_attr.map_fd, key, value, map_op_attr.flags, true);
    assert(map_op_done(
        old(objs),
        objs,
        map_op_attr.map_fd,
        BpfMapOp::GetNextKey,
        key@,
        old(value)@,
        value@,
        map_op_attr.flags,
        true,
        res,
    ));
    convert_result(res)
}

/// What `sys_bpf_program_attach` leaves behind and returns. Bytes that hold
/// no attributes give -1; nothing changes then, and the page of `site` is
/// given back.
pub open spec fn sys_attach_done<H>(
    objs: &BpfObjects,
    attached0: &AttachedPrograms,
    attached1: &AttachedPrograms,
    probes0: &Probes<H>,
    probes1: &Probes<H>,
    attr: Seq<u8>,
    target: Seq<u8>,
    site: ProbeSite,
    handlers: TracepointHandlers<H>,
    ops0: Seq<KernelOp>,
    ops1: Seq<KernelOp>,
    ret: i32,
) -> bool {
    match KprobeAttachAttr::spec_from_bytes(attr) {
        None => {
            &&& ret == -1
            &&& attached1.lists@ == attached0.lists@
            &&& probes1.kprobes.map@ == probes0.kprobes.map@
            &&& probes1.kprobes.addr_map@ == probes0.kprobes.addr_map@
            &&& probes1.kretprobes.map@ == probes0.kretprobes.map@
            &&& probes1.kretprobes.instances@ == probes0.kretprobes.instances@
            &&& probes1.breakpoints == probes0.breakpoints
            &&& ops1 == ops0.push(KernelOp::FreePage { addr: site.buf })
        },
        Some(a) => exists|res: BpfResult| #[trigger]
            attach_done(
                objs,
                attached0,
                attached1,
                probes0,
                probes1,
                target,
                a.prog_fd,
                site,
                handlers,
                ops0,
                ops1,
                res,
            ) && ret == convert_result_spec(res),
    }
}

/// `BPF_PROG_ATTACH`. `target` is the text that the attributes point to.
pub fn sys_bpf_program_attach<H>(
    objs: &BpfObjects,
    attached: &mut AttachedPrograms,
    probes: &mut Probes<H>,
    attr: &[u8],
    size: usize,
    target: &str,
    site: ProbeSite,
    handlers: TracepointHandlers<H>,
    ops: &mut Vec<KernelOp>,
) -> (ret: i32)
    requires
        objs.wf(),
        old(attached).wf(),
        old(probes).wf(),
    ensures
        final(attached).wf(),
        final(probes).wf(),
        sys_attach_done(
            objs,
            old(attached),
            final(attached),
            old(probes),
            final(probes),
            attr@,
            target.spec_bytes(),
            site,
            handlers,
            old(ops)@,
            final(ops)@,
            ret,
        ),
{
    let attach_attr = match KprobeAttachAttr::from_bytes(attr) {
        Some(attach_attr) => attach_attr,
        None => {
            ops.push(KernelOp::FreePage { addr: site.buf });
            return -1;
        },
    };
    let res = bpf_program_attach(
        objs,
        attached,
        probes,
        target,
        attach_attr.prog_fd,
        site,
        handlers,
        ops,
    );
    assert(attach_done(
        objs,
        old(attached),
        attached,
        old(probes),
        probes,
        target.spec_bytes(),
        attach_attr.prog_fd,
        site,
        handlers,
        old(ops)@,
        ops@,
        res,
    ));
    convert_result(res)
}

/// What `sys_bpf_program_detach` leaves behind and returns.
pub open spec fn sys_detach_done(
    objs0: &BpfObjects,
    objs1: &BpfObjects,
    attached0: &AttachedPrograms,
    attached1: &AttachedPrograms,
    attr: Seq<u8>,
    ret: i32,
) -> bool {
    match KprobeAttachAttr::spec_from_bytes(attr) {
        None => ret == -1 && objs1@ == objs0@ && objs1.counter() == objs0.counter()
            && attached1.lists@ == attached0.lists@,
        Some(a) => exists|res: BpfResult| #[trigger]
            detach_done(objs0, objs1, attached0, attached1, a.prog_fd, res) && ret
                == convert_result_spec(res),
    }
}

/// `BPF_PROG_DETACH`.
pub fn sys_bpf_program_detach(
    objs: &mut BpfObjects,
    attached: &mut AttachedPrograms,
    attr: &[u8],
    size: usize,
) -> (ret: i32)
    requires
        old(objs).wf(),
        old(attached).wf(),
    ensures
        final(objs).wf(),
        final(attached).wf(),
        sys_detach_done(old(objs), final(objs), old(attached), final(attached), attr@, ret),
{
    let detach_attr = match KprobeAttachAttr::from_bytes(attr) {
        Some(detach_attr) => detach_attr,
        None => { return -1; },
    };
    let res = bpf_program_detach(objs, attached, detach_attr.prog_fd);
    assert(detach_done(old(objs), objs, old(attached), attached, detach_attr.prog_fd, res));
    convert_result(res)
}

/// What `sys_bpf_program_load_ex` leaves behind and returns.
pub open spec fn sys_load_done<F: FnOnce(&[u64], usize) -> Vec<u32>>(
    before: &BpfObjects,
    after: &BpfObjects,
    file_before: Seq<u8>,
    file_after: Seq<u8>,
    image: ElfImage,
    map_info: Seq<(String, u32)>,
    jit: F,
    ret: i32,
) -> bool {
    exists|res: BpfResult| #[trigger]
        super::program::program_loaded(
            before,
            after,
            file_before,
            file_after,
            image,
            map_info,
            jit,
            res,
        ) && ret == convert_result_spec(res)
}

/// Loads a program for the system call: `bpf_program_load_ex`, with the
/// result as the system call returns it.
pub fn sys_bpf_program_load_ex<F: FnOnce(&[u64], usize) -> Vec<u32>>(
    objs: &mut BpfObjects,
    prog: &mut [u8],
    image: &ElfImage,
    map_info: &[(String, u32)],
    jit: F,
) -> (ret: i32)
    requires
        old(objs).wf(),
        forall|insns: &[u64]| jit.requires((insns, JIT_STACK_SIZE)),
    ensures
        final(objs).wf(),
        final(prog)@.len() == old(prog)@.len(),
        sys_load_done(
            old(objs),
            final(objs),
            old(prog)@,
            final(prog)@,
            *image,
            map_info@,
            jit,
            ret,
        ),
{
    let res = bpf_program_load_ex(objs, prog, image, map_info, jit);
    assert(super::program::program_loaded(
        old(objs),
        objs,
        old(prog)@,
        prog@,
        *image,
        map_info@,
        jit,
        res,
    ));
    convert_result(res)
}

/// The maps of a program to be loaded, as the array of the user names them:
/// the entry number `i` stands in the sixteen bytes from `16 * i` on and
/// gives the handle, and `names[i]` is the name that it points to.
pub open spec fn map_info_of(map_array: Seq<u8>, names: Seq<String>, count: int) -> Option<
    Seq<(String, u32)>,
> {
    if count < 0 || names.len() < count || map_array.len() < 16 * count {
        None
    } else {
        Some(
            Seq::new(
                count as nat,
                |i: int|
                    (
                        names[i],
                        MapFdEntry::spec_from_bytes(
                            map_array.subrange(16 * i, 16 * i + 16),
                        ).unwrap().fd,
                    ),
            ),
        )
    }
}

/// What `sys_preprocess_bpf_program_load_ex` leaves behind and returns.
/// Bytes that hold no attributes, and an array or a list of names that is
/// shorter than the attributes say, give -1 and change nothing.
pub open spec fn sys_preprocess_done<F: FnOnce(&[u64], usize) -> Vec<u32>>(
    before: &BpfObjects,
    after: &BpfObjects,
    attr: Seq<u8>,
    file_before: Seq<u8>,
    file_after: Seq<u8>,
    image: ElfImage,
    map_array: Seq<u8>,
    names: Seq<String>,
    jit: F,
    ret: i32,
) -> bool {
    match ProgramLoadExAttr::spec_from_bytes(attr) {
        None => ret == -1 && after@ == before@ && after.counter() == before.counter()
            && file_after == file_before,
        Some(a) => match map_info_of(map_array, names, a.map_array_len as int) {
            None => ret == -1 && after@ == before@ && after.counter() == before.counter()
                && file_after == file_before,
            Some(map_info) => sys_load_done(
                before,
                after,
                file_before,
                file_after,
                image,
                map_info,
                jit,
                ret,
            ),
        },
    }
}

/// `BPF_PROG_LOAD_EX`. `prog` is the copy of the user's object file, taken
/// apart in `image`; `map_array` is the copy of the user's array of map
/// entries, and `names` are the names that the entries point to, in order.
pub fn sys_preprocess_bpf_program_load_ex<F: FnOnce(&[u64], usize) -> Vec<u32>>(
    objs: &mut BpfObjects,
    attr: &[u8],
    size: usize,
    prog: &mut [u8],
    image: &ElfImage,
    map_array: &[u8],
    names: &[String],
    jit: F,
) -> (ret: i32)
    requires
        old(objs).wf(),
        forall|insns: &[u64]| jit.requires((insns, JIT_STACK_SIZE)),
    ensures
        final(objs).wf(),
        final(prog)@.len() == old(prog)@.len(),
        sys_preprocess_done(
            old(objs),
            final(objs),
            attr@,
            old(prog)@,
            final(prog)@,
            *image,
            map_array@,
            names@,
            jit,
            ret,
        ),
{
    let attr = match ProgramLoadExAttr::from_bytes(attr) {
        Some(attr) => attr,
        None => { return -1; },
    };
    let arr_len = attr.map_array_len as usize;
    if names.len() < arr_len || map_array.len() / 16 < arr_len {
        return -1;
    }
    let array_len = map_array.len();
    let mut map_info: Vec<(String, u32)> = Vec::new();
    let mut i: usize = 0;
    while i < arr_len
        invariant
            i <= arr_len <= names@.len(),
            16 * arr_len <= map_array@.len() == array_len,
            map_info@.len() == i,
            forall|k: int|
                0 <= k < i ==> #[trigger] map_info@[k] == (
                    names@[k],
                    MapFdEntry::spec_from_bytes(
                        map_array@.subrange(16 * k, 16 * k + 16),
                    ).unwrap().fd,
                ),
        decreases arr_len - i,
    {
        let entry = MapFdEntry::from_bytes(
            vstd::slice::slice_subrange(map_array, 16 * i, 16 * i + 16),
        ).unwrap();
        map_info.push((names[i].clone(), entry.fd));
        i += 1;
    }
    assert(map_info@ =~= map_info_of(map_array@, names@, arr_len as int).unwrap());
    sys_bpf_program_load_ex(objs, prog, image, map_info.as_slice(), jit)
}

} // verus!
