//! Block-level statistics, taken from a block's metadata and its decoded
//! transactions before any proving starts.

use vstd::prelude::*;
use crate::word::Word256;

verus! {

/// What the orchestration reads of one decoded transaction: the gas counter
/// of the block before and after it.
#[derive(Debug, Clone, Copy)]
pub struct TxUnit {
    pub gas_used_before: Word256,
    pub gas_used_after: Word256,
}

/// What the orchestration reads of a block's metadata.
#[derive(Debug, Clone, Copy)]
pub struct BlockMetadata {
    pub block_number: Word256,
    pub block_gas_used: Word256,
    pub block_difficulty: Word256,
}

/// The statistics of one block, narrowed to machine words.
#[derive(Debug, Clone)]
pub struct BlockStats {
    pub height: u64,
    pub n_txs: u64,
    pub gas_used: u64,
    pub gas_used_per_tx: Vec<u64>,
    pub difficulty: u64,
}

impl TxUnit {
    /// The gas counter does not run backwards over the transaction, and the
    /// gas it used fits in 64 bits.
    pub open spec fn gas_defined(self) -> bool {
        self.gas_used_before@ <= self.gas_used_after@ && self.gas_used_after@
            - self.gas_used_before@ <= u64::MAX
    }

    /// The gas that the transaction used.
    pub open spec fn gas(self) -> int {
        self.gas_used_after@ - self.gas_used_before@
    }

    pub fn gas_used(&self) -> (r: Option<u64>)
        ensures
            r.is_some() <==> self.gas_defined(),
            r matches Some(g) ==> g == self.gas(),
    {
        match self.gas_used_after.checked_sub(&self.gas_used_before) {
            Some(delta) => delta.to_u64(),
            None => None,
        }
    }
}

/// Every quantity that the statistics hold fits in 64 bits.
pub open spec fn stats_defined(meta: BlockMetadata, txs: Seq<TxUnit>) -> bool {
    &&& meta.block_number@ <= u64::MAX
    &&& meta.block_gas_used@ <= u64::MAX
    &&& meta.block_difficulty@ <= u64::MAX
    &&& forall|i: int| 0 <= i < txs.len() ==> (#[trigger] txs[i]).gas_defined()
}

impl BlockStats {
    /// These are the statistics of the block with this metadata and these
    /// transactions.
    pub open spec fn describes(self, meta: BlockMetadata, txs: Seq<TxUnit>) -> bool {
        &&& self.height == meta.block_number@
        &&& self.n_txs == txs.len()
        &&& self.gas_used == meta.block_gas_used@
        &&& self.difficulty == meta.block_difficulty@
        &&& self.gas_used_per_tx@.len() == txs.len()
        &&& forall|i: int|
            0 <= i < txs.len() ==> (#[trigger] self.gas_used_per_tx@[i]) == txs[i].gas()
    }

    /// Statistics that describe no block yet.
    pub fn empty() -> (s: Self)
        ensures
            s.height == 0,
            s.n_txs == 0,
            s.gas_used == 0,
            s.difficulty == 0,
            s.gas_used_per_tx@.len() == 0,
    {
        BlockStats { height: 0, n_txs: 0, gas_used: 0, gas_used_per_tx: Vec::new(), difficulty: 0 }
    }
}

/// The statistics of a block, or `None` where one of its quantities does not
/// fit in 64 bits or the gas counter runs backwards.
pub fn block_stats(meta: &BlockMetadata, txs: &Vec<TxUnit>) -> (r: Option<BlockStats>)
    ensures
        r.is_some() <==> stats_defined(*meta, txs@),
        r matches Some(s) ==> s.describes(*meta, txs@),
{
    let height: u64 = match meta.block_number.to_u64() {
        Some(h) => h,
        None => {
            return None;
        },
    };
    let gas_used: u64 = match meta.block_gas_used.to_u64() {
        Some(g) => g,
        None => {
            return None;
        },
    };
    let difficulty: u64 = match meta.block_difficulty.to_u64() {
        Some(d) => d,
        None => {
            return None;
        },
    };
    let mut gas_used_per_tx: Vec<u64> = Vec::new();
    let mut i: usize = 0;
    while i < txs.len()
        invariant
            i <= txs.len(),
            gas_used_per_tx@.len() == i,
            forall|j: int| 0 <= j < i ==> (#[trigger] txs@[j]).gas_defined(),
            forall|j: int| 0 <= j < i ==> (#[trigger] gas_used_per_tx@[j]) == txs@[j].gas(),
        decreases txs.len() - i,
    {
        match txs[i].gas_used() {
            Some(g) => {
                gas_used_per_tx.push(g);
            },
            None => {
                assert(!txs@[i as int].gas_defined());
                return None;
            },
        }
        i = i + 1;
    }
    Some(BlockStats { height, n_txs: txs.len() as u64, gas_used, gas_used_per_tx, difficulty })
}

} // verus!
