//! Numbers of the bpf interface: commands, map types, relocation kinds and
//! update flags, as libbpf and the LLVM BPF backend define them.
use vstd::prelude::*;

verus! {

/// The commands of the bpf system call.
#[derive(Clone, Copy, Debug, PartialEq, Eq, Structural)]
pub enum BpfCommand {
    BPF_MAP_CREATE,
    BPF_MAP_LOOKUP_ELEM,
    BPF_MAP_UPDATE_ELEM,
    BPF_MAP_DELETE_ELEM,
    BPF_MAP_GET_NEXT_KEY,
    BPF_PROG_LOAD,
    BPF_PROG_ATTACH,
    BPF_PROG_DETACH,
    BPF_PROG_LOAD_EX,
}

impl BpfCommand {
    /// The number that stands for a command at the system call boundary.
    pub open spec fn spec_number(self) -> i32 {
        match self {
            BpfCommand::BPF_MAP_CREATE => 0,
            BpfCommand::BPF_MAP_LOOKUP_ELEM => 1,
            BpfCommand::BPF_MAP_UPDATE_ELEM => 2,
            BpfCommand::BPF_MAP_DELETE_ELEM => 3,
            BpfCommand::BPF_MAP_GET_NEXT_KEY => 4,
            BpfCommand::BPF_PROG_LOAD => 5,
            BpfCommand::BPF_PROG_ATTACH => 8,
            BpfCommand::BPF_PROG_DETACH => 9,
            BpfCommand::BPF_PROG_LOAD_EX => 1000,
        }
    }

    #[verifier::when_used_as_spec(spec_number)]
    pub fn number(self) -> (n: i32)
        ensures
            n == self.spec_number(),
    {
        match self {
            BpfCommand::BPF_MAP_CREATE => 0,
            BpfCommand::BPF_MAP_LOOKUP_ELEM => 1,
            BpfCommand::BPF_MAP_UPDATE_ELEM => 2,
            BpfCommand::BPF_MAP_DELETE_ELEM => 3,
            BpfCommand::BPF_MAP_GET_NEXT_KEY => 4,
            BpfCommand::BPF_PROG_LOAD => 5,
            BpfCommand::BPF_PROG_ATTACH => 8,
            BpfCommand::BPF_PROG_DETACH => 9,
            BpfCommand::BPF_PROG_LOAD_EX => 1000,
        }
    }

    /// The command that a number stands for; a number that stands for none
    /// comes back as the error.
    pub fn try_from(value: i32) -> (r: Result<BpfCommand, i32>)
        ensures
            match r {
                Ok(c) => c.spec_number() == value,
                Err(v) => v == value && forall|c: BpfCommand| c.spec_number() != value,
            },
    {
        if value == 0 {
            Ok(BpfCommand::BPF_MAP_CREATE)
        } else if value == 1 {
            Ok(BpfCommand::BPF_MAP_LOOKUP_ELEM)
        } else if value == 2 {
            Ok(BpfCommand::BPF_MAP_UPDATE_ELEM)
        } else if value == 3 {
            Ok(BpfCommand::BPF_MAP_DELETE_ELEM)
        } else if value == 4 {
            Ok(BpfCommand::BPF_MAP_GET_NEXT_KEY)
        } else if value == 5 {
            Ok(BpfCommand::BPF_PROG_LOAD)
        } else if value == 8 {
            Ok(BpfCommand::BPF_PROG_ATTACH)
        } else if value == 9 {
            Ok(BpfCommand::BPF_PROG_DETACH)
        } else if value == 1000 {
            Ok(BpfCommand::BPF_PROG_LOAD_EX)
        } else {
            Err(value)
        }
    }
}

/// Different commands have different numbers.
pub proof fn lemma_command_numbers_distinct(a: BpfCommand, b: BpfCommand)
    ensures
        a.spec_number() == b.spec_number() ==> a == b,
{
}

/// eBPF map types
pub const BPF_MAP_TYPE_UNSPEC: u32 = 0;
pub const BPF_MAP_TYPE_HASH: u32 = 1;
pub const BPF_MAP_TYPE_ARRAY: u32 = 2;
pub const BPF_MAP_TYPE_PROG_ARRAY: u32 = 3;

/// eBPF LLVM relocations
pub const R_BPF_NONE: u32 = 0;
pub const R_BPF_64_64: u32 = 1;
pub const R_BPF_64_ABS64: u32 = 2;
pub const R_BPF_64_ABS32: u32 = 3;
pub const R_BPF_64_NODYLD32: u32 = 4;
pub const R_BPF_64_32: u32 = 10;

/// eBPF map operation flags
pub const BPF_ANY: u64 = 0;
pub const BPF_NOEXIST: u64 = 1;
pub const BPF_EXIST: u64 = 2;
pub const BPF_F_LOCK: u64 = 4;

} // verus!
