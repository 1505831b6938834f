//! Tracepoints: the places at which programs can be attached, the list of
//! programs attached at each, and the parsing of the text that names one.
use super::program::BpfProgram;
use super::retcode::{BpfErrorCode, BpfResult};
use super::{bpf_object_remove, BpfObjects};
use crate::probe::arch::riscv::trapframe::TrapFrame;
use crate::probe::kprobes::{kprobe_registered, PreHandler, ProbeSite};
use crate::probe::kretprobes::kretprobe_registered;
use crate::probe::osutils::{dealloc_page, KernelOp};
use crate::probe::{register_kprobe, register_kretprobe, KProbeArgs, KRetProbeArgs, Probes};
use std::sync::Arc;
use vstd::prelude::*;
use vstd::string::StringSliceAdditionalSpecFns;

verus! {

/// The attributes of `BPF_PROG_ATTACH` and `BPF_PROG_DETACH`: user address
/// and length of the text that names the tracepoint, which does not end with
/// a zero byte, and the handle of the program.
#[derive(Clone, Copy, Debug, PartialEq, Eq, Structural)]
pub struct KprobeAttachAttr {
    pub target: u64,
    pub str_len: u32,
    pub prog_fd: u32,
}

impl KprobeAttachAttr {
    /// The attributes that stand in the sixteen bytes from the start of
    /// `bytes` on: an address of 64 bits and two numbers of 32 bits.
    pub open spec fn spec_from_bytes(bytes: Seq<u8>) -> Option<KprobeAttachAttr> {
        if bytes.len() < 16 {
            None
        } else {
            Some(
                KprobeAttachAttr {
                    target: vstd::bytes::spec_u64_from_le_bytes(bytes.subrange(0, 8)),
                    str_len: vstd::bytes::spec_u32_from_le_bytes(bytes.subrange(8, 12)),
                    prog_fd: vstd::bytes::spec_u32_from_le_bytes(bytes.subrange(12, 16)),
                },
            )
        }
    }

    pub fn from_bytes(bytes: &[u8]) -> (r: Option<KprobeAttachAttr>)
        ensures
            r == KprobeAttachAttr::spec_from_bytes(bytes@),
    {
        if bytes.len() < 16 {
            return None;
        }
        Some(
            KprobeAttachAttr {
                target: vstd::bytes::u64_from_le_bytes(vstd::slice::slice_subrange(bytes, 0, 8)),
                str_len: vstd::bytes::u32_from_le_bytes(vstd::slice::slice_subrange(bytes, 8, 12)),
                prog_fd: vstd::bytes::u32_from_le_bytes(
                    vstd::slice::slice_subrange(bytes, 12, 16),
                ),
            },
        )
    }
}

/// The kinds of tracepoints. Those on single user instructions and on the
/// return of user functions are set aside for later.
#[derive(Clone, Copy, Debug, PartialEq, Eq, PartialOrd, Ord, Structural)]
pub enum TracepointType {
    KProbe,
    KRetProbeEntry,
    KRetProbeExit,
    UProbe_Insn,
    URetProbeEntry_Insn,
    URetProbeExit_Insn,
    UProbe_SyncFunc,
    URetProbeEntry_SyncFunc,
    URetProbeExit_SyncFunc,
}

/// A tracepoint: its kind and the address that it is put at.
#[derive(Clone, Copy, Debug, PartialEq, Eq, PartialOrd, Ord, Structural)]
pub struct Tracepoint {
    pub tp_type: TracepointType,
    pub token: usize,
}

impl Tracepoint {
    pub fn new(tp_type: TracepointType, token: usize) -> (tp: Self)
        ensures
            tp == (Tracepoint { tp_type, token }),
    {
        Self { tp_type, token }
    }
}

/// The word that names a kind of tracepoint.
pub open spec fn kind_word(kind: TracepointType) -> Seq<char> {
    match kind {
        TracepointType::KProbe => "kprobe"@,
        TracepointType::KRetProbeEntry => "kretprobe@entry"@,
        TracepointType::KRetProbeExit => "kretprobe@exit"@,
        TracepointType::UProbe_Insn => "uprobe_insn"@,
        TracepointType::URetProbeEntry_Insn => "uretprobe_insn@entry"@,
        TracepointType::URetProbeExit_Insn => "uretprobe_insn@exit"@,
        TracepointType::UProbe_SyncFunc => "uprobe_syncfunc"@,
        TracepointType::URetProbeEntry_SyncFunc => "uretprobe_syncfunc@entry"@,
        TracepointType::URetProbeExit_SyncFunc => "uretprobe_syncfunc@exit"@,
    }
}

/// A capital letter of ASCII as its small letter, any other byte as it is.
pub open spec fn lower(b: u8) -> u8 {
    if 65 <= b <= 90 {
        (b + 32) as u8
    } else {
        b
    }
}

/// Whether `text` is `word` but for the case of its letters.
pub open spec fn is_word(text: Seq<u8>, word: Seq<char>) -> bool {
    text.len() == word.len() && forall|i: int|
        0 <= i < text.len() ==> lower(#[trigger] text[i]) == lower(word[i] as u8)
}

/// The kind that `text` names, whatever the case of its letters.
pub open spec fn kind_of(text: Seq<u8>) -> Option<TracepointType> {
    if is_word(text, kind_word(TracepointType::KProbe)) {
        Some(TracepointType::KProbe)
    } else if is_word(text, kind_word(TracepointType::KRetProbeEntry)) {
        Some(TracepointType::KRetProbeEntry)
    } else if is_word(text, kind_word(TracepointType::KRetProbeExit)) {
        Some(TracepointType::KRetProbeExit)
    } else if is_word(text, kind_word(TracepointType::UProbe_Insn)) {
        Some(TracepointType::UProbe_Insn)
    } else if is_word(text, kind_word(TracepointType::URetProbeEntry_Insn)) {
        Some(TracepointType::URetProbeEntry_Insn)
    } else if is_word(text, kind_word(TracepointType::URetProbeExit_Insn)) {
        Some(TracepointType::URetProbeExit_Insn)
    } else if is_word(text, kind_word(TracepointType::UProbe_SyncFunc)) {
        Some(TracepointType::UProbe_SyncFunc)
    } else if is_word(text, kind_word(TracepointType::URetProbeEntry_SyncFunc)) {
        Some(TracepointType::URetProbeEntry_SyncFunc)
    } else if is_word(text, kind_word(TracepointType::URetProbeExit_SyncFunc)) {
        Some(TracepointType::URetProbeExit_SyncFunc)
    } else {
        None
    }
}

/// The place of the first `$` from `from` on; the length of the text where
/// there is none.
pub open spec fn next_dollar(text: Seq<u8>, from: int) -> int
    decreases text.len() - from,
{
    if from < 0 || from >= text.len() {
        text.len() as int
    } else if text[from] == 0x24 {
        from
    } else {
        next_dollar(text, from + 1)
    }
}

/// What a target text says: the kind, the text of the address, and the path
/// of the user program where the text has one.
///
/// The parts of the text are separated by `$`. There are two, kind and
/// address, or three, kind, path and address; any other number is refused
/// with `EINVAL`, and so is a kind that `kind_of` does not know.
pub open spec fn parse_spec(target: Seq<u8>) -> Result<
    (TracepointType, Seq<u8>, Option<Seq<u8>>),
    BpfErrorCode,
> {
    let end = target.len() as int;
    let first = next_dollar(target, 0);
    let second = next_dollar(target, first + 1);
    let third = next_dollar(target, second + 1);
    if first >= end || third < end {
        Err(BpfErrorCode::EINVAL)
    } else {
        match kind_of(target.subrange(0, first)) {
            None => Err(BpfErrorCode::EINVAL),
            Some(kind) => if second >= end {
                Ok((kind, target.subrange(first + 1, end), None))
            } else {
                Ok(
                    (
                        kind,
                        target.subrange(second + 1, end),
                        Some(target.subrange(first + 1, second)),
                    ),
                )
            },
        }
    }
}

/// The value of a hexadecimal digit.
pub open spec fn hex_digit(b: u8) -> Option<int> {
    if 0x30 <= b <= 0x39 {
        Some(b - 0x30)
    } else if 0x61 <= b <= 0x66 {
        Some(b - 0x61 + 10)
    } else if 0x41 <= b <= 0x46 {
        Some(b - 0x41 + 10)
    } else {
        None
    }
}

/// Whether every byte is a hexadecimal digit.
pub open spec fn all_hex(digits: Seq<u8>) -> bool {
    forall|i: int| 0 <= i < digits.len() ==> hex_digit(#[trigger] digits[i]) is Some
}

/// The number that hexadecimal digits stand for.
pub open spec fn hex_value(digits: Seq<u8>) -> int
    decreases digits.len(),
{
    if digits.len() == 0 {
        0
    } else {
        hex_value(digits.drop_last()) * 16 + (match hex_digit(digits.last()) {
            Some(d) => d,
            None => 0,
        })
    }
}

/// The address that a text stands for: the text is `0x` and at least one
/// hexadecimal digit behind it, and the number fits the machine.
pub open spec fn addr_of_text(text: Seq<u8>) -> Option<usize> {
    if text.len() >= 3 && text[0] == 0x30 && text[1] == 0x78 && all_hex(
        text.subrange(2, text.len() as int),
    ) && hex_value(text.subrange(2, text.len() as int)) <= usize::MAX {
        Some(hex_value(text.subrange(2, text.len() as int)) as usize)
    } else {
        None
    }
}

/// Whether `text` is `word` but for the case of its letters.
fn matches_word(text: &[u8], word: &str) -> (r: bool)
    requires
        vstd::string::is_ascii(word),
    ensures
        r == is_word(text@, word@),
{
    let bytes = word.as_bytes();
    proof {
        broadcast use vstd::string::is_ascii_spec_bytes;
    }
    if text.len() != bytes.len() {
        return false;
    }
    let mut i: usize = 0;
    while i < text.len()
        invariant
            i <= text@.len(),
            text@.len() == bytes@.len(),
            bytes@.len() == word@.len(),
            forall|j: int| 0 <= j < bytes@.len() ==> bytes@[j] == word@[j] as u8,
            forall|j: int| 0 <= j < i ==> lower(#[trigger] text@[j]) == lower(word@[j] as u8),
        decreases text@.len() - i,
    {
        let a = text[i];
        let b = bytes[i];
        let la = if a >= 65 && a <= 90 { a + 32 } else { a };
        let lb = if b >= 65 && b <= 90 { b + 32 } else { b };
        if la != lb {
            assert(lower(text@[i as int]) != lower(word@[i as int] as u8));
            return false;
        }
        i += 1;
    }
    true
}

/// The kind that `text` names.
fn kind_of_text(text: &[u8]) -> (r: Option<TracepointType>)
    ensures
        r == kind_of(text@),
{
    proof {
        reveal_strlit("kprobe");
        reveal_strlit("kretprobe@entry");
        reveal_strlit("kretprobe@exit");
        reveal_strlit("uprobe_insn");
        reveal_strlit("uretprobe_insn@entry");
        reveal_strlit("uretprobe_insn@exit");
        reveal_strlit("uprobe_syncfunc");
        reveal_strlit("uretprobe_syncfunc@entry");
        reveal_strlit("uretprobe_syncfunc@exit");
    }
    if matches_word(text, "kprobe") {
        Some(TracepointType::KProbe)
    } else if matches_word(text, "kretprobe@entry") {
        Some(TracepointType::KRetProbeEntry)
    } else if matches_word(text, "kretprobe@exit") {
        Some(TracepointType::KRetProbeExit)
    } else if matches_word(text, "uprobe_insn") {
        Some(TracepointType::UProbe_Insn)
    } else if matches_word(text, "uretprobe_insn@entry") {
        Some(TracepointType::URetProbeEntry_Insn)
    } else if matches_word(text, "uretprobe_insn@exit") {
        Some(TracepointType::URetProbeExit_Insn)
    } else if matches_word(text, "uprobe_syncfunc") {
        Some(TracepointType::UProbe_SyncFunc)
    } else if matches_word(text, "uretprobe_syncfunc@entry") {
        Some(TracepointType::URetProbeEntry_SyncFunc)
    } else if matches_word(text, "uretprobe_syncfunc@exit") {
        Some(TracepointType::URetProbeExit_SyncFunc)
    } else {
        None
    }
}

/// The place of the first `$` from `from` on.
fn find_dollar(text: &[u8], from: usize) -> (at: usize)
    requires
        from <= text@.len(),
    ensures
        at == next_dollar(text@, from as int),
        from <= at <= text@.len(),
{
    let mut i: usize = from;
    while i < text.len() && text[i] != 0x24
        invariant
            from <= i <= text@.len(),
            next_dollar(text@, from as int) == next_dollar(text@, i as int),
        decreases text@.len() - i,
    {
        i += 1;
    }
    i
}

/// A copy of the bytes from `from` up to `to`.
fn copy_range(text: &[u8], from: usize, to: usize) -> (part: Vec<u8>)
    requires
        from <= to <= text@.len(),
    ensures
        part@ == text@.subrange(from as int, to as int),
{
    let mut part: Vec<u8> = Vec::new();
    part.extend_from_slice(vstd::slice::slice_subrange(text, from, to));
    part
}

/// parse tracepoint types
pub fn parse_tracepoint(target: &str) -> (r: Result<
    (TracepointType, Vec<u8>, Option<Vec<u8>>),
    BpfErrorCode,
>)
    ensures
        match parse_spec(target.spec_bytes()) {
            Ok((kind, addr, path)) => r matches Ok((k, a, p)) && k == kind && a@ == addr && (
            match path {
                Some(text) => p matches Some(t) && t@ == text,
                None => p is None,
            }),
            Err(e) => r == Err::<(TracepointType, Vec<u8>, Option<Vec<u8>>), BpfErrorCode>(e),
        },
{
    let text = target.as_bytes();
    let end = text.len();
    let first = find_dollar(text, 0);
    if first >= end {
        return Err(BpfErrorCode::EINVAL);
    }
    let second = find_dollar(text, first + 1);
    if second < end {
        let third = find_dollar(text, second + 1);
        if third < end {
            return Err(BpfErrorCode::EINVAL);
        }
    }
    // determine tracepoint type
    let tp_type = match kind_of_text(vstd::slice::slice_subrange(text, 0, first)) {
        Some(tp_type) => tp_type,
        None => { return Err(BpfErrorCode::EINVAL); },
    };
    if second >= end {
        Ok((tp_type, copy_range(text, first + 1, end), None))
    } else {
        Ok((tp_type, copy_range(text, second + 1, end), Some(copy_range(text, first + 1, second))))
    }
}

/// Where hexadecimal digits go on, the number does not get smaller.
proof fn lemma_hex_grows(digits: Seq<u8>, n: int)
    requires
        0 <= n <= digits.len(),
    ensures
        0 <= hex_value(digits.subrange(0, n)) <= hex_value(digits),
    decreases digits.len() - n,
{
    if n == digits.len() {
        assert(digits.subrange(0, n) =~= digits);
        lemma_hex_nonneg(digits);
    } else {
        lemma_hex_grows(digits, n + 1);
        let longer = digits.subrange(0, n + 1);
        assert(longer.drop_last() =~= digits.subrange(0, n));
        lemma_hex_nonneg(digits.subrange(0, n));
    }
}

proof fn lemma_hex_nonneg(digits: Seq<u8>)
    ensures
        0 <= hex_value(digits),
    decreases digits.len(),
{
    if digits.len() > 0 {
        lemma_hex_nonneg(digits.drop_last());
    }
}

/// The address that a text stands for. The kernel carries no symbol table, so
/// a function is named by its address, written as `0x` and hexadecimal digits.
pub fn resolve_symbol(symbol: &[u8]) -> (r: Option<usize>)
    ensures
        r == addr_of_text(symbol@),
{
    if symbol.len() < 3 || symbol[0] != 0x30 || symbol[1] != 0x78 {
        return None;
    }
    let ghost digits = symbol@.subrange(2, symbol@.len() as int);
    let mut value: usize = 0;
    let mut i: usize = 2;
    while i < symbol.len()
        invariant
            2 <= i <= symbol@.len(),
            digits == symbol@.subrange(2, symbol@.len() as int),
            all_hex(digits.subrange(0, i - 2)),
            value == hex_value(digits.subrange(0, i - 2)),
        decreases symbol@.len() - i,
    {
        let b = symbol[i];
        let digit: usize = if b >= 0x30 && b <= 0x39 {
            (b - 0x30) as usize
        } else if b >= 0x61 && b <= 0x66 {
            (b - 0x61) as usize + 10
        } else if b >= 0x41 && b <= 0x46 {
            (b - 0x41) as usize + 10
        } else {
            assert(digits[i - 2] == b);
            assert(!all_hex(digits));
            return None;
        };
        proof {
            let longer = digits.subrange(0, i - 1);
            assert(longer.drop_last() =~= digits.subrange(0, i - 2));
            assert(longer.last() == b);
            assert(hex_value(longer) == value * 16 + digit);
            assert(all_hex(longer)) by {
                assert forall|j: int| 0 <= j < longer.len() implies hex_digit(
                    #[trigger] longer[j],
                ) is Some by {
                    if j < longer.len() - 1 {
                        assert(digits.subrange(0, i - 2)[j] == longer[j]);
                    }
                }
            }
            lemma_hex_grows(digits, i - 1);
        }
        if value > (usize::MAX - digit) / 16 {
            return None;
        }
        value = value * 16 + digit;
        i += 1;
    }
    assert(digits.subrange(0, i - 2) =~= digits);
    Some(value)
}

/// A program on a list, with the handle that it was attached under.
pub struct AttachedProgram {
    pub fd: u32,
    pub program: Arc<BpfProgram>,
}

/// The programs attached at one tracepoint, in the order of attachment,
/// which is the order in which they run.
pub struct AttachedList {
    pub tracepoint: Tracepoint,
    pub programs: Vec<AttachedProgram>,
}

/// The lists of attached programs, one for each tracepoint that has had a
/// program.
pub struct AttachedPrograms {
    pub lists: Vec<AttachedList>,
}

/// The handlers that the probe engine is to call for the tracepoints of
/// programs: each runs, in order, the programs that the function of the same
/// name in this file lists.
pub struct TracepointHandlers<H> {
    pub kprobe_handler: H,
    pub kretprobe_entry_handler: H,
    pub kretprobe_exit_handler: H,
}

/// The handles of a list of programs.
pub open spec fn fds_of(programs: Seq<AttachedProgram>) -> Seq<u32> {
    Seq::new(programs.len(), |i: int| programs[i].fd)
}

impl AttachedPrograms {
    /// Whether the tracepoint has a list.
    pub open spec fn has_list(&self, tp: Tracepoint) -> bool {
        exists|i: int| 0 <= i < self.lists@.len() && (#[trigger] self.lists@[i]).tracepoint == tp
    }

    /// The place of the list of a tracepoint that has one.
    pub open spec fn list_of(&self, tp: Tracepoint) -> int {
        choose|i: int| 0 <= i < self.lists@.len() && (#[trigger] self.lists@[i]).tracepoint == tp
    }

    /// The programs attached at a tracepoint, in the order of attachment.
    pub open spec fn attached(&self, tp: Tracepoint) -> Seq<AttachedProgram> {
        if self.has_list(tp) {
            self.lists@[self.list_of(tp)].programs@
        } else {
            Seq::empty()
        }
    }

    /// The handles of the programs attached at a tracepoint.
    pub open spec fn fds(&self, tp: Tracepoint) -> Seq<u32> {
        fds_of(self.attached(tp))
    }

    /// No tracepoint has two lists, and no list has a handle twice.
    pub open spec fn wf(&self) -> bool {
        &&& forall|i: int, j: int|
            0 <= i < j < self.lists@.len() ==> (#[trigger] self.lists@[i]).tracepoint != (
            #[trigger] self.lists@[j]).tracepoint
        &&& forall|i: int, k: int, l: int|
            0 <= i < self.lists@.len() && 0 <= k < l < self.lists@[i].programs@.len() ==> (
            #[trigger] self.lists@[i].programs@[k]).fd != (#[trigger] self.lists@[i].programs@[l]).fd
    }

    /// Where lists are in order, the list of a tracepoint is the one that
    /// stands at its place.
    pub proof fn lemma_list(&self, at: int)
        requires
            self.wf(),
            0 <= at < self.lists@.len(),
        ensures
            self.has_list(self.lists@[at].tracepoint),
            self.list_of(self.lists@[at].tracepoint) == at,
            self.attached(self.lists@[at].tracepoint) == self.lists@[at].programs@,
    {
        let tp = self.lists@[at].tracepoint;
        let i = self.list_of(tp);
        assert(self.lists@[i].tracepoint == tp);
        if i < at {
            assert(self.lists@[i].tracepoint != self.lists@[at].tracepoint);
        } else if at < i {
            assert(self.lists@[at].tracepoint != self.lists@[i].tracepoint);
        }
    }

    /// No lists.
    pub fn new() -> (attached: Self)
        ensures
            attached.wf(),
            attached.lists@.len() == 0,
            forall|tp: Tracepoint| !attached.has_list(tp),
    {
        AttachedPrograms { lists: Vec::new() }
    }

    /// The place of the list of a tracepoint.
    pub fn find_list(&self, tp: &Tracepoint) -> (r: Option<usize>)
        requires
            self.wf(),
        ensures
            match r {
                Some(at) => self.has_list(*tp) && at == self.list_of(*tp) && at < self.lists@.len(),
                None => !self.has_list(*tp),
            },
    {
        let mut i: usize = 0;
        while i < self.lists.len()
            invariant
                self.wf(),
                i <= self.lists@.len(),
                forall|j: int| 0 <= j < i ==> (#[trigger] self.lists@[j]).tracepoint != *tp,
            decreases self.lists@.len() - i,
        {
            if self.lists[i].tracepoint == *tp {
                proof {
                    self.lemma_list(i as int);
                }
                return Some(i);
            }
            i += 1;
        }
        None
    }
}

/// `Arc::clone` gives another handle on what an `Arc` holds: the contract
/// says that the two hold the same.
#[verifier::external_body]
fn share(program: &Arc<BpfProgram>) -> (shared: Arc<BpfProgram>)
    ensures
        shared == *program,
{
    program.clone()
}

/// The programs attached at a tracepoint, in the order in which they are to
/// run: the order of attachment. The caller runs them; what they return is
/// of no account.
pub fn run_attached_programs(attached: &AttachedPrograms, tracepoint: &Tracepoint) -> (programs:
    Vec<Arc<BpfProgram>>)
    requires
        attached.wf(),
    ensures
        programs@.len() == attached.attached(*tracepoint).len(),
        forall|i: int|
            0 <= i < programs@.len() ==> #[trigger] programs@[i] == attached.attached(
                *tracepoint,
            )[i].program,
{
    let mut programs: Vec<Arc<BpfProgram>> = Vec::new();
    match attached.find_list(tracepoint) {
        Some(at) => {
            let list = &attached.lists[at].programs;
            let mut i: usize = 0;
            while i < list.len()
                invariant
                    i <= list@.len(),
                    programs@.len() == i,
                    forall|j: int| 0 <= j < i ==> #[trigger] programs@[j] == list@[j].program,
                decreases list@.len() - i,
            {
                programs.push(share(&list[i].program));
                i += 1;
            }
        },
        None => {},
    }
    programs
}

/// What a program sees of a hit kernel probe: which of the three handlers
/// speaks (0 for a probe, 1 for the entry and 2 for the exit of a return
/// probe), the probed address, and the saved registers.
#[derive(Clone, Copy, Debug)]
pub struct KProbeBPFContext {
    pub ptype: usize,
    pub paddr: usize,
    pub tf: TrapFrame,
}

impl KProbeBPFContext {
    pub fn new(tf: &TrapFrame, probed_addr: usize, t: usize) -> (ctx: Self)
        ensures
            ctx.ptype == t,
            ctx.paddr == probed_addr,
            ctx.tf == *tf,
    {
        KProbeBPFContext { ptype: t, paddr: probed_addr, tf: *tf }
    }
}

/// What a program sees of a hit user probe; `ptype` 0 is a probe on a
/// function.
#[derive(Clone, Copy, Debug)]
pub struct UProbeBPFContext {
    pub ptype: usize,
    pub paddr: usize,
    pub tf: TrapFrame,
}

impl UProbeBPFContext {
    pub fn new(tf: &TrapFrame, probed_addr: usize, t: usize) -> (ctx: Self)
        ensures
            ctx.ptype == t,
            ctx.paddr == probed_addr,
            ctx.tf == *tf,
    {
        UProbeBPFContext { ptype: t, paddr: probed_addr, tf: *tf }
    }
}

/// What the hit of a kernel probe at `probed_addr` is to run: the programs
/// attached there, each with the context given.
pub fn kprobe_handler(attached: &AttachedPrograms, tf: &TrapFrame, probed_addr: usize) -> (r: (
    KProbeBPFContext,
    Vec<Arc<BpfProgram>>,
))
    requires
        attached.wf(),
    ensures
        r.0.ptype == 0 && r.0.paddr == probed_addr && r.0.tf == *tf,
        r.1@.len() == attached.attached(
            Tracepoint { tp_type: TracepointType::KProbe, token: probed_addr },
        ).len(),
        forall|i: int|
            0 <= i < r.1@.len() ==> #[trigger] r.1@[i] == attached.attached(
                Tracepoint { tp_type: TracepointType::KProbe, token: probed_addr },
            )[i].program,
{
    let tracepoint = Tracepoint::new(TracepointType::KProbe, probed_addr);
    let ctx = KProbeBPFContext::new(tf, probed_addr, 0);
    (ctx, run_attached_programs(attached, &tracepoint))
}

/// What the hit of a user probe on the function at `probed_addr` is to run.
pub fn uprobe_syncfunc_handler(
    attached: &AttachedPrograms,
    tf: &TrapFrame,
    probed_addr: usize,
) -> (r: (UProbeBPFContext, Vec<Arc<BpfProgram>>))
    requires
        attached.wf(),
    ensures
        r.0.ptype == 0 && r.0.paddr == probed_addr && r.0.tf == *tf,
        r.1@.len() == attached.attached(
            Tracepoint { tp_type: TracepointType::UProbe_SyncFunc, token: probed_addr },
        ).len(),
        forall|i: int|
            0 <= i < r.1@.len() ==> #[trigger] r.1@[i] == attached.attached(
                Tracepoint { tp_type: TracepointType::UProbe_SyncFunc, token: probed_addr },
            )[i].program,
{
    let tracepoint = Tracepoint::new(TracepointType::UProbe_SyncFunc, probed_addr);
    let ctx = UProbeBPFContext::new(tf, probed_addr, 0);
    (ctx, run_attached_programs(attached, &tracepoint))
}

/// A handler that does nothing.
pub fn nonsense<T: Sized>(cx: &T) {
}

/// What the entry of the function at `probed_addr` is to run.
pub fn kretprobe_entry_handler(
    attached: &AttachedPrograms,
    tf: &TrapFrame,
    probed_addr: usize,
) -> (r: (KProbeBPFContext, Vec<Arc<BpfProgram>>))
    requires
        attached.wf(),
    ensures
        r.0.ptype == 1 && r.0.paddr == probed_addr && r.0.tf == *tf,
        r.1@.len() == attached.attached(
            Tracepoint { tp_type: TracepointType::KRetProbeEntry, token: probed_addr },
        ).len(),
        forall|i: int|
            0 <= i < r.1@.len() ==> #[trigger] r.1@[i] == attached.attached(
                Tracepoint { tp_type: TracepointType::KRetProbeEntry, token: probed_addr },
            )[i].program,
{
    let tracepoint = Tracepoint::new(TracepointType::KRetProbeEntry, probed_addr);
    let ctx = KProbeBPFContext::new(tf, probed_addr, 1);
    (ctx, run_attached_programs(attached, &tracepoint))
}

/// What the return of the function at `probed_addr` is to run.
pub fn kretprobe_exit_handler(
    attached: &AttachedPrograms,
    tf: &TrapFrame,
    probed_addr: usize,
) -> (r: (KProbeBPFContext, Vec<Arc<BpfProgram>>))
    requires
        attached.wf(),
    ensures
        r.0.ptype == 2 && r.0.paddr == probed_addr && r.0.tf == *tf,
        r.1@.len() == attached.attached(
            Tracepoint { tp_type: TracepointType::KRetProbeExit, token: probed_addr },
        ).len(),
        forall|i: int|
            0 <= i < r.1@.len() ==> #[trigger] r.1@[i] == attached.attached(
                Tracepoint { tp_type: TracepointType::KRetProbeExit, token: probed_addr },
            )[i].program,
{
    let tracepoint = Tracepoint::new(TracepointType::KRetProbeExit, probed_addr);
    let ctx = KProbeBPFContext::new(tf, probed_addr, 2);
    (ctx, run_attached_programs(attached, &tracepoint))
}

/// A list of programs without the program of a handle.
pub open spec fn without(programs: Seq<AttachedProgram>, fd: u32) -> Seq<AttachedProgram> {
    if fds_of(programs).contains(fd) {
        programs.remove(fds_of(programs).index_of(fd))
    } else {
        programs
    }
}

impl AttachedPrograms {
    /// Whether `after` is `self` but for the list of `tp`, which holds
    /// `programs`.
    pub open spec fn with_list(
        &self,
        after: &AttachedPrograms,
        tp: Tracepoint,
        programs: Seq<AttachedProgram>,
    ) -> bool {
        &&& after.has_list(tp)
        &&& after.attached(tp) == programs
        &&& other_lists_kept(self, after, tp)
    }

    /// Lists that stand where they stood, with what they held, are the lists
    /// of the same tracepoints as before.
    proof fn lemma_lists_kept(&self, after: &AttachedPrograms, tp: Tracepoint)
        requires
            self.wf(),
            after.wf(),
            self.lists@.len() <= after.lists@.len(),
            forall|j: int|
                0 <= j < self.lists@.len() ==> (#[trigger] after.lists@[j]).tracepoint
                    == self.lists@[j].tracepoint && (self.lists@[j].tracepoint != tp
                    ==> after.lists@[j].programs@ == self.lists@[j].programs@),
            forall|j: int|
                self.lists@.len() <= j < after.lists@.len() ==> (
                #[trigger] after.lists@[j]).tracepoint == tp,
        ensures
            other_lists_kept(self, after, tp),
    {
        assert forall|other: Tracepoint| other != tp implies #[trigger] same_list(
            self,
            after,
            other,
        ) by {
            if after.has_list(other) {
                let j = after.list_of(other);
                assert(after.lists@[j].tracepoint == other);
                assert(j < self.lists@.len());
                assert(self.lists@[j].tracepoint == other);
                self.lemma_list(j);
                after.lemma_list(j);
            }
            if self.has_list(other) {
                let j = self.list_of(other);
                assert(self.lists@[j].tracepoint == other);
                assert(after.lists@[j].tracepoint == other);
                self.lemma_list(j);
                after.lemma_list(j);
            }
        }
    }

    /// Gives a tracepoint that has no list a list.
    fn add_list(&mut self, tp: Tracepoint, programs: Vec<AttachedProgram>)
        requires
            old(self).wf(),
            !old(self).has_list(tp),
            forall|k: int, l: int|
                0 <= k < l < programs@.len() ==> (#[trigger] programs@[k]).fd != (
                #[trigger] programs@[l]).fd,
        ensures
            final(self).wf(),
            old(self).with_list(final(self), tp, programs@),
    {
        self.lists.push(AttachedList { tracepoint: tp, programs });
        proof {
            let n = old(self).lists@.len() as int;
            assert forall|i: int, j: int| 0 <= i < j < self.lists@.len() implies (
            #[trigger] self.lists@[i]).tracepoint != (#[trigger] self.lists@[j]).tracepoint by {
                if j == n {
                    assert(old(self).lists@[i].tracepoint != tp);
                } else {
                    assert(old(self).lists@[i].tracepoint != old(self).lists@[j].tracepoint);
                }
            }
            assert forall|i: int, k: int, l: int|
                0 <= i < self.lists@.len() && 0 <= k < l < self.lists@[i].programs@.len() implies (
            #[trigger] self.lists@[i].programs@[k]).fd != (
            #[trigger] self.lists@[i].programs@[l]).fd by {
                if i < n {
                    assert(old(self).lists@[i].programs@[k].fd != old(self).lists@[i].programs@[l].fd);
                }
            }
            self.lemma_list(n);
            old(self).lemma_lists_kept(self, tp);
        }
    }

    /// Puts a program at the end of the list number `at`.
    fn append(&mut self, at: usize, program: AttachedProgram)
        requires
            old(self).wf(),
            at < old(self).lists@.len(),
            !fds_of(old(self).lists@[at as int].programs@).contains(program.fd),
        ensures
            final(self).wf(),
            old(self).with_list(
                final(self),
                old(self).lists@[at as int].tracepoint,
                old(self).lists@[at as int].programs@.push(program),
            ),
    {
        let ghost tp = self.lists@[at as int].tracepoint;
        let ghost fd = program.fd;
        self.lists[at].programs.push(program);
        proof {
            assert forall|i: int, j: int| 0 <= i < j < self.lists@.len() implies (
            #[trigger] self.lists@[i]).tracepoint != (#[trigger] self.lists@[j]).tracepoint by {
                assert(old(self).lists@[i].tracepoint != old(self).lists@[j].tracepoint);
            }
            assert forall|i: int, k: int, l: int|
                0 <= i < self.lists@.len() && 0 <= k < l < self.lists@[i].programs@.len() implies (
            #[trigger] self.lists@[i].programs@[k]).fd != (
            #[trigger] self.lists@[i].programs@[l]).fd by {
                if i == at && l == self.lists@[i].programs@.len() - 1 {
                    let before = old(self).lists@[at as int].programs@;
                    assert(fds_of(before)[k] == before[k].fd);
                } else {
                    assert(old(self).lists@[i].programs@[k].fd != old(self).lists@[i].programs@[l].fd);
                }
            }
            self.lemma_list(at as int);
            old(self).lemma_list(at as int);
            old(self).lemma_lists_kept(self, tp);
        }
    }

    /// Whether the list number `at` holds the handle.
    fn list_has(&self, at: usize, fd: u32) -> (r: Option<usize>)
        requires
            self.wf(),
            at < self.lists@.len(),
        ensures
            match r {
                Some(k) => k < self.lists@[at as int].programs@.len() && fds_of(
                    self.lists@[at as int].programs@,
                ).contains(fd) && fds_of(self.lists@[at as int].programs@).index_of(fd) == k,
                None => !fds_of(self.lists@[at as int].programs@).contains(fd),
            },
    {
        let list = &self.lists[at].programs;
        let ghost fds = fds_of(list@);
        let mut k: usize = 0;
        while k < list.len()
            invariant
                self.wf(),
                at < self.lists@.len(),
                list@ == self.lists@[at as int].programs@,
                fds == fds_of(list@),
                k <= list@.len(),
                forall|j: int| 0 <= j < k ==> fds[j] != fd,
            decreases list@.len() - k,
        {
            if list[k].fd == fd {
                proof {
                    assert(fds[k as int] == fd);
                    let j = fds.index_of(fd);
                    assert(fds[j] == fd);
                    if j < k {
                        assert(list@[j].fd != list@[k as int].fd);
                    } else if k < j {
                        assert(list@[k as int].fd != list@[j].fd);
                    }
                }
                return Some(k);
            }
            k += 1;
        }
        None
    }

    /// Takes the program of a handle off every list.
    fn remove_fd(&mut self, fd: u32)
        requires
            old(self).wf(),
        ensures
            final(self).wf(),
            forall|tp: Tracepoint| #[trigger] detached_at(old(self), final(self), tp, fd),
    {
        let mut i: usize = 0;
        while i < self.lists.len()
            invariant
                self.wf(),
                i <= self.lists@.len(),
                self.lists@.len() == old(self).lists@.len(),
                forall|j: int|
                    0 <= j < self.lists@.len() ==> (#[trigger] self.lists@[j]).tracepoint == old(self).lists@[j].tracepoint,
                forall|j: int|
                    0 <= j < i ==> (#[trigger] self.lists@[j]).programs@ == without(
                        old(self).lists@[j].programs@,
                        fd,
                    ) && !fds_of(self.lists@[j].programs@).contains(fd),
                forall|j: int|
                    i <= j < self.lists@.len() ==> (#[trigger] self.lists@[j]).programs@ == old(self).lists@[j].programs@,
            decreases self.lists@.len() - i,
        {
            let ghost before = self.lists@;
            match self.list_has(i, fd) {
                Some(k) => {
                    let _ = self.lists[i].programs.remove(k);
                    proof {
                        let was = before[i as int].programs@;
                        let now = self.lists@[i as int].programs@;
                        assert(now == was.remove(k as int));
                        assert forall|a: int, b: int| 0 <= a < b < now.len() implies (
                        #[trigger] now[a]).fd != (#[trigger] now[b]).fd by {
                            let a0 = if a < k { a } else { a + 1 };
                            let b0 = if b < k { b } else { b + 1 };
                            assert(was[a0].fd != was[b0].fd);
                        }
                        if fds_of(now).contains(fd) {
                            let a = fds_of(now).index_of(fd);
                            assert(fds_of(now)[a] == fd);
                            let a0 = if a < k { a } else { a + 1 };
                            assert(was[a0].fd == fd);
                            if a0 < k {
                                assert(was[a0].fd != was[k as int].fd);
                            } else {
                                assert(was[k as int].fd != was[a0].fd);
                            }
                        }
                        assert forall|p: int, a: int, b: int|
                            0 <= p < self.lists@.len() && 0 <= a < b
                                < self.lists@[p].programs@.len() implies (
                        #[trigger] self.lists@[p].programs@[a]).fd != (
                        #[trigger] self.lists@[p].programs@[b]).fd by {
                            if p != i {
                                assert(before[p].programs@[a].fd != before[p].programs@[b].fd);
                            }
                        }
                        assert forall|p: int, q: int| 0 <= p < q < self.lists@.len() implies (
                        #[trigger] self.lists@[p]).tracepoint != (
                        #[trigger] self.lists@[q]).tracepoint by {
                            assert(before[p].tracepoint != before[q].tracepoint);
                        }
                    }
                },
                None => {},
            }
            i += 1;
        }
        proof {
            assert forall|tp: Tracepoint| #[trigger] detached_at(old(self), self, tp, fd) by {
                if self.has_list(tp) {
                    let j = self.list_of(tp);
                    assert(self.lists@[j].tracepoint == tp);
                    assert(old(self).lists@[j].tracepoint == tp);
                    old(self).lemma_list(j);
                    self.lemma_list(j);
                }
                if old(self).has_list(tp) {
                    let j = old(self).list_of(tp);
                    assert(old(self).lists@[j].tracepoint == tp);
                    assert(self.lists@[j].tracepoint == tp);
                    old(self).lemma_list(j);
                    self.lemma_list(j);
                } else {
                    assert(!fds_of(Seq::<AttachedProgram>::empty()).contains(fd));
                }
            }
        }
    }
}

/// Whether the list of `tp` in `after` is that in `before` without the
/// program of the handle `fd`, which is then not on it.
pub open spec fn detached_at(
    before: &AttachedPrograms,
    after: &AttachedPrograms,
    tp: Tracepoint,
    fd: u32,
) -> bool {
    &&& after.has_list(tp) == before.has_list(tp)
    &&& after.attached(tp) == without(before.attached(tp), fd)
    &&& !after.fds(tp).contains(fd)
}

/// The tracepoint that a target text names, and the path of the user program
/// where the text has one.
pub open spec fn attach_point(target: Seq<u8>) -> Option<(Tracepoint, Option<Seq<u8>>)> {
    match parse_spec(target) {
        Ok((kind, addr, path)) => match addr_of_text(addr) {
            Some(token) => Some((Tracepoint { tp_type: kind, token }, path)),
            None => None,
        },
        Err(_) => None,
    }
}

/// The tracepoint that a target text names, where it names one.
pub open spec fn target_tracepoint(target: Seq<u8>) -> Tracepoint {
    let (tp, path) = attach_point(target).unwrap();
    tp
}

/// The tracepoint that a target text names.
pub fn tracepoint_of(target: &str) -> (r: Option<(Tracepoint, Option<Vec<u8>>)>)
    ensures
        match attach_point(target.spec_bytes()) {
            Some((tp, path)) => r matches Some((t, p)) && t == tp && (match path {
                Some(text) => p matches Some(x) && x@ == text,
                None => p is None,
            }),
            None => r is None,
        },
{
    match parse_tracepoint(target) {
        Ok((tp_type, addr_string, user_program_path)) => {
            match resolve_symbol(addr_string.as_slice()) {
                Some(addr) => Some((Tracepoint::new(tp_type, addr), user_program_path)),
                None => None,
            }
        },
        Err(_) => None,
    }
}

/// The other tracepoint of a return probe: the exit for the entry, the entry
/// for the exit. Other tracepoints have none, and stand for themselves.
pub open spec fn dual_of(tp: Tracepoint) -> Tracepoint {
    match tp.tp_type {
        TracepointType::KRetProbeEntry => Tracepoint {
            tp_type: TracepointType::KRetProbeExit,
            token: tp.token,
        },
        TracepointType::KRetProbeExit => Tracepoint {
            tp_type: TracepointType::KRetProbeEntry,
            token: tp.token,
        },
        _ => tp,
    }
}

/// Why a program cannot be attached, if it cannot. The handle names no
/// program (`ENOENT`). The target text names no tracepoint (`EINVAL`). The
/// program is attached to the tracepoint already (`EAGAIN`). The tracepoint
/// is new, and the probe for it cannot be put (`EINVAL`): the engine refuses
/// it, a user probe has no path, or the kind is one set aside for later.
pub open spec fn attach_error<H>(
    objs: &BpfObjects,
    attached: &AttachedPrograms,
    probes: &Probes<H>,
    target: Seq<u8>,
    prog_fd: u32,
    site: ProbeSite,
) -> Option<BpfErrorCode> {
    if !objs.has_program(prog_fd) {
        Some(BpfErrorCode::ENOENT)
    } else {
        match attach_point(target) {
            None => Some(BpfErrorCode::EINVAL),
            Some((tp, path)) => if attached.has_list(tp) {
                if attached.fds(tp).contains(prog_fd) {
                    Some(BpfErrorCode::EAGAIN)
                } else {
                    None
                }
            } else {
                match tp.tp_type {
                    TracepointType::KProbe
                    | TracepointType::KRetProbeEntry
                    | TracepointType::KRetProbeExit => if probes.kprobes.can_register(
                        tp.token,
                        site,
                    ) {
                        None
                    } else {
                        Some(BpfErrorCode::EINVAL)
                    },
                    TracepointType::UProbe_SyncFunc => if path is Some {
                        None
                    } else {
                        Some(BpfErrorCode::EINVAL)
                    },
                    _ => Some(BpfErrorCode::EINVAL),
                }
            },
        }
    }
}

/// What attaching does to the probe engine and what it asks of the kernel,
/// where the tracepoint `tp` is new. A kernel probe is registered with the
/// handler for it, a return probe with the two handlers for entry and exit,
/// each with the address as the word for the handler; the kernel is asked to
/// arm it. For a user probe the kernel is asked to put it, and gets back the
/// page that was set aside.
pub open spec fn probe_put<H>(
    before: &Probes<H>,
    after: &Probes<H>,
    tp: Tracepoint,
    site: ProbeSite,
    handlers: TracepointHandlers<H>,
    ops0: Seq<KernelOp>,
    ops1: Seq<KernelOp>,
) -> bool {
    let addr = tp.token;
    &&& after.breakpoints == before.breakpoints
    &&& after.kretprobes.instances@ == before.kretprobes.instances@
    &&& match tp.tp_type {
        TracepointType::KProbe => {
            &&& after.kretprobes.map@ == before.kretprobes.map@
            &&& kprobe_registered(
                &before.kprobes,
                &after.kprobes,
                addr,
                PreHandler::Call(handlers.kprobe_handler),
                None,
                addr,
                site,
                ops0,
                ops1,
                true,
            )
        },
        TracepointType::KRetProbeEntry | TracepointType::KRetProbeExit => kretprobe_registered(
            &before.kprobes,
            &after.kprobes,
            &before.kretprobes,
            &after.kretprobes,
            addr,
            KRetProbeArgs {
                exit_handler: handlers.kretprobe_exit_handler,
                entry_handler: Some(handlers.kretprobe_entry_handler),
                limit: None,
                user_data: addr,
            },
            site,
            ops0,
            ops1,
            true,
        ),
        _ => {
            &&& after.kprobes.map@ == before.kprobes.map@
            &&& after.kprobes.addr_map@ == before.kprobes.addr_map@
            &&& after.kretprobes.map@ == before.kretprobes.map@
            &&& ops1 == ops0.push(KernelOp::FreePage { addr: site.buf }).push(
                KernelOp::Uprobe { addr },
            )
        },
    }
}

/// What attaching leaves behind and returns. A program that cannot be
/// attached (`attach_error`) changes nothing; the page of `site` is given
/// back. Otherwise the program stands at the end of the tracepoint's list;
/// where the tracepoint had no list, the probe for it was put (`probe_put`),
/// and a return probe has given both of its tracepoints a list.
pub open spec fn attach_done<H>(
    objs: &BpfObjects,
    attached0: &AttachedPrograms,
    attached1: &AttachedPrograms,
    probes0: &Probes<H>,
    probes1: &Probes<H>,
    target: Seq<u8>,
    prog_fd: u32,
    site: ProbeSite,
    handlers: TracepointHandlers<H>,
    ops0: Seq<KernelOp>,
    ops1: Seq<KernelOp>,
    r: BpfResult,
) -> bool {
    match attach_error(objs, attached0, probes0, target, prog_fd, site) {
        Some(e) => {
            &&& r == Err::<usize, BpfErrorCode>(e)
            &&& attached1.lists@ == attached0.lists@
            &&& probes1.kprobes.map@ == probes0.kprobes.map@
            &&& probes1.kprobes.addr_map@ == probes0.kprobes.addr_map@
            &&& probes1.kretprobes.map@ == probes0.kretprobes.map@
            &&& probes1.kretprobes.instances@ == probes0.kretprobes.instances@
            &&& probes1.breakpoints == probes0.breakpoints
            &&& ops1 == ops0.push(KernelOp::FreePage { addr: site.buf })
        },
        None => {
            let tp = target_tracepoint(target);
            let program = AttachedProgram { fd: prog_fd, program: objs.program_at(prog_fd) };
            &&& r == Ok::<usize, BpfErrorCode>(0)
            &&& attached1.has_list(tp)
            &&& attached1.attached(tp) == attached0.attached(tp).push(program)
            &&& !attached0.has_list(tp) ==> attached1.has_list(dual_of(tp))
            &&& same_programs(attached0, attached1, dual_of(tp)) || dual_of(tp) == tp
            &&& forall|other: Tracepoint|
                other != tp && other != dual_of(tp) ==> #[trigger] same_list(
                    attached0,
                    attached1,
                    other,
                )
            &&& if attached0.has_list(tp) {
                &&& probes1.kprobes.map@ == probes0.kprobes.map@
                &&& probes1.kprobes.addr_map@ == probes0.kprobes.addr_map@
                &&& probes1.kretprobes.map@ == probes0.kretprobes.map@
                &&& probes1.kretprobes.instances@ == probes0.kretprobes.instances@
                &&& probes1.breakpoints == probes0.breakpoints
                &&& ops1 == ops0.push(KernelOp::FreePage { addr: site.buf })
            } else {
                probe_put(probes0, probes1, tp, site, handlers, ops0, ops1)
            }
        },
    }
}

/// Attaches the program under `prog_fd` to the tracepoint that `target`
/// names. The program goes to the end of the tracepoint's list. Where the
/// tracepoint has no list yet, the probe for it is put first; `site` is what
/// the caller has read and set aside for that, and `handlers` are the
/// handlers to register.
///
/// Whatever is not used of `site` is given back through `ops`.
pub fn bpf_program_attach<H>(
    objs: &BpfObjects,
    attached: &mut AttachedPrograms,
    probes: &mut Probes<H>,
    target: &str,
    prog_fd: u32,
    site: ProbeSite,
    handlers: TracepointHandlers<H>,
    ops: &mut Vec<KernelOp>,
) -> (r: BpfResult)
    requires
        objs.wf(),
        old(attached).wf(),
        old(probes).wf(),
    ensures
        final(attached).wf(),
        final(probes).wf(),
        attach_done(
            objs,
            old(attached),
            final(attached),
            old(probes),
            final(probes),
            target.spec_bytes(),
            prog_fd,
            site,
            handlers,
            old(ops)@,
            final(ops)@,
            r,
        ),
{
    // check program fd
    let program = match objs.get(prog_fd) {
        Some(bpf_obj) => match bpf_obj.is_program() {
            Some(shared_program) => share(shared_program),
            None => {
                dealloc_page(ops, site.buf);
                return Err(BpfErrorCode::ENOENT);
            },
        },
        None => {
            dealloc_page(ops, site.buf);
            return Err(BpfErrorCode::ENOENT);
        },
    };
    let (tracepoint, user_program_path) = match tracepoint_of(target) {
        Some(point) => point,
        None => {
            dealloc_page(ops, site.buf);
            return Err(BpfErrorCode::EINVAL);
        },
    };
    let addr = tracepoint.token;
    assert(tracepoint == target_tracepoint(target.spec_bytes()));
    let entry = AttachedProgram { fd: prog_fd, program };
    assert(entry == (AttachedProgram { fd: prog_fd, program: objs.program_at(prog_fd) }));
    match attached.find_list(&tracepoint) {
        Some(at) => {
            dealloc_page(ops, site.buf);
            if attached.list_has(at, prog_fd).is_some() {
                return Err(BpfErrorCode::EAGAIN);
            }
            attached.append(at, entry);
            proof {
                if dual_of(tracepoint) != tracepoint {
                    assert(same_list(old(attached), attached, dual_of(tracepoint)));
                }
            }

        },
        None => {
            match tracepoint.tp_type {
                TracepointType::KProbe => {
                    let args = KProbeArgs {
                        pre_handler: handlers.kprobe_handler,
                        post_handler: None,
                        user_data: addr,
                    };
                    if register_kprobe(probes, addr, args, site, ops).is_none() {
                        return Err(BpfErrorCode::EINVAL);
                    }
                    let mut programs: Vec<AttachedProgram> = Vec::new();
                    programs.push(entry);
                    attached.add_list(tracepoint, programs);
                    assert(old(attached).attached(tracepoint).push(entry) =~= seq![entry]);
                },
                TracepointType::KRetProbeEntry | TracepointType::KRetProbeExit => {
                    let args = KRetProbeArgs {
                        exit_handler: handlers.kretprobe_exit_handler,
                        entry_handler: Some(handlers.kretprobe_entry_handler),
                        limit: None,
                        user_data: addr,
                    };
                    if register_kretprobe(probes, addr, args, site, ops).is_none() {
                        return Err(BpfErrorCode::EINVAL);
                    }
                    let dual_tp = if tracepoint.tp_type == TracepointType::KRetProbeEntry {
                        Tracepoint::new(TracepointType::KRetProbeExit, addr)
                    } else {
                        Tracepoint::new(TracepointType::KRetProbeEntry, addr)
                    };
                    let mut programs: Vec<AttachedProgram> = Vec::new();
                    programs.push(entry);
                    attached.add_list(tracepoint, programs);
                    assert(old(attached).attached(tracepoint).push(entry) =~= seq![entry]);
                    let ghost mid = *attached;
                    assert(same_list(old(attached), &mid, dual_tp));
                    if attached.find_list(&dual_tp).is_none() {
                        attached.add_list(dual_tp, Vec::new());
                        proof {
                            assert(same_list(&mid, attached, tracepoint));
                            assert(attached.attached(dual_tp) =~= old(attached).attached(dual_tp));
                            assert forall|other: Tracepoint|
                                other != tracepoint && other != dual_tp implies #[trigger] same_list(
                                old(attached),
                                attached,
                                other,
                            ) by {
                                assert(same_list(old(attached), &mid, other));
                                assert(same_list(&mid, attached, other));
                            }
                        }
                    }
                },
                TracepointType::UProbe_SyncFunc => {
                    dealloc_page(ops, site.buf);
                    if user_program_path.is_none() {
                        return Err(BpfErrorCode::EINVAL);
                    }
                    ops.push(KernelOp::Uprobe { addr });
                    let mut programs: Vec<AttachedProgram> = Vec::new();
                    programs.push(entry);
                    attached.add_list(tracepoint, programs);
                    assert(old(attached).attached(tracepoint).push(entry) =~= seq![entry]);
                },
                _ => {
                    dealloc_page(ops, site.buf);
                    return Err(BpfErrorCode::EINVAL);
                },
            }
        },
    }
    Ok(0)
}

/// Whether the lists of `after` are those of `before` for every tracepoint
/// but `tp`.
pub open spec fn other_lists_kept(
    before: &AttachedPrograms,
    after: &AttachedPrograms,
    tp: Tracepoint,
) -> bool {
    forall|other: Tracepoint|
        other != tp ==> same_list(before, after, other)
}

/// Whether the same programs are attached at a tracepoint in both.
pub open spec fn same_programs(
    before: &AttachedPrograms,
    after: &AttachedPrograms,
    tp: Tracepoint,
) -> bool {
    after.attached(tp) == before.attached(tp)
}

/// Whether a tracepoint has the same list, or none, in both.
pub open spec fn same_list(
    before: &AttachedPrograms,
    after: &AttachedPrograms,
    tp: Tracepoint,
) -> bool {
    after.has_list(tp) == before.has_list(tp) && after.attached(tp) == before.attached(tp)
}

/// What detaching leaves behind and returns. The program is out of the
/// registry and off the list of every tracepoint. A handle that names no
/// program gives `ENOENT` and changes nothing.
pub open spec fn detach_done(
    objs0: &BpfObjects,
    objs1: &BpfObjects,
    attached0: &AttachedPrograms,
    attached1: &AttachedPrograms,
    prog_fd: u32,
    r: BpfResult,
) -> bool {
    &&& objs1.counter() == objs0.counter()
    &&& if objs0.has_program(prog_fd) {
        &&& r == Ok::<usize, BpfErrorCode>(0)
        &&& objs1@ == objs0@.remove(prog_fd)
        &&& forall|tp: Tracepoint| #[trigger] detached_at(attached0, attached1, tp, prog_fd)
    } else {
        &&& r == Err::<usize, BpfErrorCode>(BpfErrorCode::ENOENT)
        &&& objs1@ == objs0@
        &&& attached1.lists@ == attached0.lists@
    }
}

/// Detaches the program under `prog_fd`: takes it out of the registry and
/// off the list of every tracepoint, so that no hit runs it any more.
pub fn bpf_program_detach(
    objs: &mut BpfObjects,
    attached: &mut AttachedPrograms,
    prog_fd: u32,
) -> (r: BpfResult)
    requires
        old(objs).wf(),
        old(attached).wf(),
    ensures
        final(objs).wf(),
        final(attached).wf(),
        detach_done(old(objs), final(objs), old(attached), final(attached), prog_fd, r),
{
    let is_program = match objs.get(prog_fd) {
        Some(obj) => obj.is_program().is_some(),
        None => false,
    };
    if !is_program {
        return Err(BpfErrorCode::ENOENT);
    }
    let _ = bpf_object_remove(objs, prog_fd);
    attached.remove_fd(prog_fd);
    Ok(0)
}

/// After a program was detached, no hit runs it: it is on the list of no
/// tracepoint, so it is not among the programs that `run_attached_programs`
/// gives for any.
pub proof fn lemma_detached_runs_nothing(
    objs0: &BpfObjects,
    objs1: &BpfObjects,
    attached0: &AttachedPrograms,
    attached1: &AttachedPrograms,
    prog_fd: u32,
    r: BpfResult,
    tp: Tracepoint,
)
    requires
        objs0.has_program(prog_fd),
        detach_done(objs0, objs1, attached0, attached1, prog_fd, r),
    ensures
        r == Ok::<usize, BpfErrorCode>(0),
        !objs1@.contains_key(prog_fd),
        forall|i: int|
            0 <= i < attached1.attached(tp).len() ==> (#[trigger] attached1.attached(tp)[i]).fd
                != prog_fd,
{
    assert(detached_at(attached0, attached1, tp, prog_fd));
    assert forall|i: int| 0 <= i < attached1.attached(tp).len() implies (
    #[trigger] attached1.attached(tp)[i]).fd != prog_fd by {
        assert(attached1.fds(tp)[i] == attached1.attached(tp)[i].fd);
    }
}

/// A program is on the list of a tracepoint once at most: attaching it a
/// second time fails with `EAGAIN` and leaves the list as it is.
pub proof fn lemma_attached_once<H>(
    objs: &BpfObjects,
    attached: &AttachedPrograms,
    probes: &Probes<H>,
    target: Seq<u8>,
    prog_fd: u32,
    site: ProbeSite,
)
    requires
        attached.wf(),
        objs.has_program(prog_fd),
        attach_point(target) is Some,
        attached.fds(target_tracepoint(target)).contains(prog_fd),
    ensures
        attach_error(objs, attached, probes, target, prog_fd, site) == Some(BpfErrorCode::EAGAIN),
        forall|k: int, l: int|
            0 <= k < l < attached.fds(target_tracepoint(target)).len() ==> attached.fds(
                target_tracepoint(target),
            )[k] != attached.fds(target_tracepoint(target))[l],
{
    let tp = target_tracepoint(target);
    if !attached.has_list(tp) {
        assert(attached.fds(tp) =~= Seq::<u32>::empty());
    }
    let at = attached.list_of(tp);
    assert forall|k: int, l: int| 0 <= k < l < attached.fds(tp).len() implies attached.fds(tp)[k]
        != attached.fds(tp)[l] by {
        assert(attached.lists@[at].programs@[k].fd != attached.lists@[at].programs@[l].fd);
    }
}

} // verus!
