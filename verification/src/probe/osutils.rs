//! What the probe engine needs of the kernel around it. The engine does not
//! touch memory: it writes down, as a list of `KernelOp`, what the kernel has
//! to do once a call has returned.
use vstd::prelude::*;

verus! {

pub const PAGE_SIZE: usize = 4096;

/// One thing for the kernel to do. A list of these is carried out from front
/// to back.
#[derive(Clone, Copy, Debug, PartialEq, Eq, Structural)]
pub enum KernelOp {
    /// copy `len` bytes from `src` to `dst`
    Copy { dst: usize, src: usize, len: usize },
    /// write `count` compressed breakpoint instructions, two bytes each, from `addr` on
    Breakpoints { addr: usize, count: usize },
    /// make the instruction cache forget what it holds
    FlushICache,
    /// give the page at `addr` back
    FreePage { addr: usize },
    /// put a probe on the function at `addr` of the user program that the
    /// attach request names
    Uprobe { addr: usize },
}

/// Sets up what the kernel side needs; nothing, as it stands.
pub fn init_osutils() {
}

/// Records that `len` bytes are to be copied from `src_addr` to `dst_addr`.
pub fn byte_copy(ops: &mut Vec<KernelOp>, dst_addr: usize, src_addr: usize, len: usize)
    ensures
        final(ops)@ == old(ops)@.push(KernelOp::Copy { dst: dst_addr, src: src_addr, len }),
{
    ops.push(KernelOp::Copy { dst: dst_addr, src: src_addr, len });
}

/// Records that the page at `va` is to be given back.
pub fn dealloc_page(ops: &mut Vec<KernelOp>, va: usize)
    ensures
        final(ops)@ == old(ops)@.push(KernelOp::FreePage { addr: va }),
{
    ops.push(KernelOp::FreePage { addr: va });
}

/// The address of a kernel symbol. The kernel carries no symbol table, so
/// there is none for any name; probes are placed by address.
pub fn symbol_to_addr(symbol: &str) -> (r: Option<usize>)
    ensures
        r is None,
{
    None
}

} // verus!
