//! Error codes of the bpf interface.
use vstd::prelude::*;

verus! {

/// Why an operation failed. The names follow errno.
#[derive(Clone, Copy, Debug, PartialEq, Eq, Structural)]
pub enum BpfErrorCode {
    /// no such handle, key, section or symbol; or an iteration that has ended
    ENOENT,
    /// the program is attached to that tracepoint already
    EAGAIN,
    /// the hash map is full
    ENOMEM,
    /// the key is present and the caller asked for a fresh insert
    EEXIST,
    /// malformed or unsupported argument
    EINVAL,
}

/// A non-negative value on success: a new handle, a byte count or zero.
pub type BpfResult = Result<usize, BpfErrorCode>;

impl BpfErrorCode {
    /// The errno number of a code.
    pub open spec fn spec_errno(self) -> i32 {
        match self {
            BpfErrorCode::ENOENT => 2,
            BpfErrorCode::EAGAIN => 11,
            BpfErrorCode::ENOMEM => 12,
            BpfErrorCode::EEXIST => 17,
            BpfErrorCode::EINVAL => 22,
        }
    }

    #[verifier::when_used_as_spec(spec_errno)]
    pub fn errno(self) -> (n: i32)
        ensures
            n == self.spec_errno(),
    {
        match self {
            BpfErrorCode::ENOENT => 2,
            BpfErrorCode::EAGAIN => 11,
            BpfErrorCode::ENOMEM => 12,
            BpfErrorCode::EEXIST => 17,
            BpfErrorCode::EINVAL => 22,
        }
    }
}

} // verus!
