//! Checkpoint policies of a block source.

use vstd::prelude::*;

verus! {

/// Why a block source could not hand over the input of a proving run.
#[derive(Debug)]
pub enum FetchError {
    /// The RPC endpoint refused or failed; the text is its message.
    ZeroBinRpcFetchError(String),
}

/// How the trusted starting block of a run is chosen.
#[derive(Debug, Clone, Copy)]
pub enum Checkpoint {
    /// Always this block number.
    Constant(u64),
    /// That many blocks before the first block of the interval, floored at 0.
    BlockNumberNegativeOffset(u64),
}

impl Default for Checkpoint {
    fn default() -> (c: Self)
        ensures
            c == Checkpoint::BlockNumberNegativeOffset(1),
    {
        Checkpoint::BlockNumberNegativeOffset(1)
    }
}

impl Checkpoint {
    /// The checkpoint block for an interval that starts at `block_number`.
    pub open spec fn checkpoint_of(self, block_number: u64) -> int {
        match self {
            Checkpoint::Constant(value) => value as int,
            Checkpoint::BlockNumberNegativeOffset(offset) => if block_number - offset > 0 {
                block_number - offset
            } else {
                0
            },
        }
    }

    pub fn get_checkpoint(&self, block_number: u64) -> (c: u64)
        ensures
            c as int == self.checkpoint_of(block_number),
    {
        match self {
            Checkpoint::BlockNumberNegativeOffset(offset) => {
                if block_number > *offset {
                    block_number - *offset
                } else {
                    0
                }
            },
            Checkpoint::Constant(constant_value) => *constant_value,
        }
    }
}

/// The policy in force when a caller may have left it out: one block before
/// the start.
pub open spec fn policy_or_default(method: Option<Checkpoint>) -> Checkpoint {
    match method {
        Some(policy) => policy,
        None => Checkpoint::BlockNumberNegativeOffset(1),
    }
}

/// The checkpoint block that a fetch of the interval starting at
/// `start_block` asks the block source for.
pub fn checkpoint_block(method: &Option<Checkpoint>, start_block: u64) -> (c: u64)
    ensures
        c as int == policy_or_default(*method).checkpoint_of(start_block),
{
    match method {
        Some(policy) => policy.get_checkpoint(start_block),
        None => Checkpoint::default().get_checkpoint(start_block),
    }
}

/// A checkpoint under the offset policy never lies after the start block, and
/// a constant policy ignores the start block.
pub proof fn checkpoint_bounds(policy: Checkpoint, block_number: u64)
    ensures
        0 <= policy.checkpoint_of(block_number) <= u64::MAX,
        policy is BlockNumberNegativeOffset ==> policy.checkpoint_of(block_number) <= block_number,
        policy matches Checkpoint::Constant(value) ==> policy.checkpoint_of(block_number) == value,
{
}

} // verus!
