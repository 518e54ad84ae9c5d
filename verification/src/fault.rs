//! The fatal conditions of a run and the process exit code of each.

use vstd::prelude::*;

verus! {

/// A condition that ends the run without a result.
#[derive(Clone, Copy, Debug, PartialEq, Eq, Structural)]
pub enum FatalError {
    /// A worker could not publish because the consumer side is gone.
    ChannelClosed,
    /// The destination of the encoded image could not be created.
    DestinationUnavailable,
    /// The encoder rejected the finished buffer.
    EncodingFailed,
}

impl FatalError {
    /// Exit code of the process for this condition.
    pub open spec fn spec_exit_code(self) -> int {
        match self {
            FatalError::ChannelClosed => 0x10,
            FatalError::DestinationUnavailable => 0x01,
            FatalError::EncodingFailed => 0x02,
        }
    }

    /// Exit code of the process for this condition; never zero, which is
    /// reserved for normal completion.
    pub fn exit_code(&self) -> (code: i32)
        ensures
            code == self.spec_exit_code(),
            code != 0,
    {
        match self {
            FatalError::ChannelClosed => 0x10,
            FatalError::DestinationUnavailable => 0x01,
            FatalError::EncodingFailed => 0x02,
        }
    }
}

/// Two different fatal conditions never share an exit code, and none of them
/// exits with the code of success.
pub proof fn lemma_exit_codes_distinct(a: FatalError, b: FatalError)
    ensures
        a.spec_exit_code() != 0,
        a != b ==> a.spec_exit_code() != b.spec_exit_code(),
{
}

} // verus!
