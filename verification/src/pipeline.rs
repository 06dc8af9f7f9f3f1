//! The proof pipeline of one block, as a state machine.
//!
//! The pipeline never performs the proving work. Each call of
//! [`BlockPipeline::step`] takes what happened outside (an [`Event`]) and
//! says what to do next (an [`Action`]); the caller performs the action and
//! comes back with the next event.

use vstd::prelude::*;
use crate::clock::Stopwatch;
use crate::stats::{block_stats, stats_defined, BlockMetadata, BlockStats, TxUnit};

verus! {

/// Where a block is on its way to a proof.
#[derive(Debug, Clone, Copy, PartialEq, Eq, Structural)]
pub enum Stage {
    Pending,
    Decoding,
    MappingTxProofs,
    Folding,
    AwaitingPrevious,
    Finalizing,
    Done,
    Failed,
}

/// What went wrong.
#[derive(Debug, Clone, Copy, PartialEq, Eq, Structural)]
pub enum ErrorKind {
    /// The trace does not fit the block's metadata.
    DecodeError,
    /// The backend failed a map, fold or finalize task.
    DispatchError,
    /// The previous block's proof could not be obtained.
    ChainLinkError,
    /// The backend answered with something no stage expects: a fold that is
    /// no aggregate, a proof for a transaction that does not exist or has one
    /// already, an event that does not belong to the stage.
    ContractViolation,
    /// A block number, gas amount or difficulty does not fit in 64 bits.
    OverflowError,
}

/// A failure, with the position of the block in its run and the stage in
/// which it happened.
#[derive(Debug, Clone, Copy, PartialEq, Eq, Structural)]
pub struct ProveError {
    pub kind: ErrorKind,
    pub stage: Stage,
    pub block: usize,
}

/// A reading of the clocks: a monotonic one in nanoseconds, and the wall
/// clock in milliseconds since the Unix epoch.
#[derive(Debug, Clone, Copy, PartialEq, Eq, Structural)]
pub struct Clock {
    pub mono: u64,
    pub wall: i64,
}

/// The finished proof of one block.
#[derive(Debug, Clone)]
pub struct GeneratedBlockProof {
    pub b_height: u64,
    pub intern: Vec<u8>,
}

impl View for GeneratedBlockProof {
    type V = (u64, Seq<u8>);

    open spec fn view(&self) -> (u64, Seq<u8>) {
        (self.b_height, self.intern@)
    }
}

/// What a fold over the transaction proofs of a block came back with. Only
/// `Agg` can be finalized.
#[derive(Debug, Clone)]
pub enum AggregatableProof {
    Txn(Vec<u8>),
    Agg(Vec<u8>),
}

/// A block proof with the durations of its stages, in nanoseconds, and the
/// statistics of its block.
#[derive(Debug, Clone)]
pub struct BenchmarkedGeneratedBlockProof {
    pub proof: GeneratedBlockProof,
    pub prep_dur: Option<u64>,
    pub proof_dur: Option<u64>,
    pub agg_dur: Option<u64>,
    pub total_dur: Option<u64>,
    pub n_txs: u64,
    pub gas_used: u64,
    pub gas_used_per_tx: Vec<u64>,
    pub difficulty: u64,
    pub start_time: i64,
    pub end_time: i64,
}

/// What happened outside since the last step.
#[derive(Debug, Clone)]
pub enum Event {
    /// The pipeline was entered.
    Start,
    /// The decoder produced the block's transactions, in order.
    Decoded(Vec<TxUnit>),
    DecodeFailed,
    /// The backend proved the transaction at `index`.
    TxProved { index: usize, proof: Vec<u8> },
    /// The backend folded the transaction proofs.
    Folded(AggregatableProof),
    /// The previous block's proof arrived.
    PreviousReady(GeneratedBlockProof),
    /// The previous block's proof will never arrive.
    PreviousLost,
    /// The backend finalized the block.
    Finalized(GeneratedBlockProof),
    /// The backend failed the task of the current stage.
    DispatchFailed,
}

/// What the caller is to do next.
#[derive(Debug, Clone)]
pub enum Action {
    /// Nothing: wait for the next event.
    Idle,
    /// Decode the block's trace.
    Decode,
    /// Hand each of the `count` transactions to the backend.
    MapTxs { count: usize, save_inputs_on_error: bool },
    /// Fold these transaction proofs, left to right.
    Fold { proofs: Vec<Vec<u8>>, save_inputs_on_error: bool },
    /// Wait for the previous block's proof.
    AwaitPrevious,
    /// Bind the aggregate to the previous block's proof.
    Finalize { agg: Vec<u8>, prev: Option<GeneratedBlockProof>, save_inputs_on_error: bool },
    /// The block is proved.
    Complete(BenchmarkedGeneratedBlockProof),
    /// The block failed.
    Abort(ProveError),
}

/// The byte strings that a list of proofs holds.
pub open spec fn payloads(proofs: Seq<Vec<u8>>) -> Seq<Seq<u8>> {
    Seq::new(proofs.len(), |i: int| proofs[i]@)
}

/// Every transaction has its proof.
pub open spec fn all_proved(slots: Seq<Option<Vec<u8>>>) -> bool {
    forall|i: int| 0 <= i < slots.len() ==> (#[trigger] slots[i]).is_some()
}

/// The proofs in transaction order, whatever the order they arrived in.
pub open spec fn in_tx_order(slots: Seq<Option<Vec<u8>>>) -> Seq<Seq<u8>> {
    Seq::new(slots.len(), |i: int| slots[i].unwrap()@)
}

/// The time from one reading of the monotonic clock to a later one; zero
/// where the second is not later.
pub open spec fn elapsed(from: u64, to: u64) -> u64 {
    if to >= from {
        (to - from) as u64
    } else {
        0
    }
}

fn elapsed_between(from: u64, to: u64) -> (d: u64)
    ensures
        d == elapsed(from, to),
{
    if to >= from {
        to - from
    } else {
        0
    }
}

/// A copy of a byte string.
pub fn copy_bytes(src: &Vec<u8>) -> (out: Vec<u8>)
    ensures
        out@ == src@,
{
    let mut out: Vec<u8> = Vec::new();
    let mut i: usize = 0;
    while i < src.len()
        invariant
            i <= src.len(),
            out@ == src@.subrange(0, i as int),
        decreases src.len() - i,
    {
        out.push(src[i]);
        proof {
            assert(out@ =~= src@.subrange(0, i + 1));
        }
        i = i + 1;
    }
    proof {
        assert(src@.subrange(0, src.len() as int) =~= src@);
    }
    out
}

impl GeneratedBlockProof {
    /// A copy with the same height and payload.
    pub fn duplicate(&self) -> (c: Self)
        ensures
            c@ == self@,
    {
        GeneratedBlockProof { b_height: self.b_height, intern: copy_bytes(&self.intern) }
    }
}

impl BenchmarkedGeneratedBlockProof {
    /// The proof without its measurements.
    pub fn into_proof(self) -> (p: GeneratedBlockProof)
        ensures
            p == self.proof,
    {
        self.proof
    }
}

impl From<BenchmarkedGeneratedBlockProof> for GeneratedBlockProof {
    fn from(value: BenchmarkedGeneratedBlockProof) -> (p: Self) {
        value.proof
    }
}

impl vstd::std_specs::convert::FromSpecImpl<BenchmarkedGeneratedBlockProof> for GeneratedBlockProof {
    open spec fn obeys_from_spec() -> bool {
        true
    }

    open spec fn from_spec(value: BenchmarkedGeneratedBlockProof) -> Self {
        value.proof
    }
}

/// `count` slots, none of them filled.
fn empty_slots(count: usize) -> (slots: Vec<Option<Vec<u8>>>)
    ensures
        slots@ =~= Seq::new(count as nat, |i: int| None::<Vec<u8>>),
{
    let mut slots: Vec<Option<Vec<u8>>> = Vec::new();
    let mut i: usize = 0;
    while i < count
        invariant
            i <= count,
            slots@ =~= Seq::new(i as nat, |j: int| None::<Vec<u8>>),
        decreases count - i,
    {
        slots.push(None);
        i = i + 1;
    }
    slots
}

/// The proofs in transaction order, once every transaction has one.
fn collect_in_order(slots: &Vec<Option<Vec<u8>>>) -> (r: Option<Vec<Vec<u8>>>)
    ensures
        r.is_some() <==> all_proved(slots@),
        r matches Some(proofs) ==> payloads(proofs@) =~= in_tx_order(slots@),
{
    let mut proofs: Vec<Vec<u8>> = Vec::new();
    let mut i: usize = 0;
    while i < slots.len()
        invariant
            i <= slots.len(),
            proofs@.len() == i,
            forall|j: int| 0 <= j < i ==> (#[trigger] slots@[j]).is_some(),
            forall|j: int| 0 <= j < i ==> (#[trigger] proofs@[j])@ == slots@[j].unwrap()@,
        decreases slots.len() - i,
    {
        match &slots[i] {
            Some(proof) => {
                proofs.push(copy_bytes(proof));
            },
            None => {
                assert(!slots@[i as int].is_some());
                return None;
            },
        }
        i = i + 1;
    }
    Some(proofs)
}

/// The pipeline of one block.
#[derive(Debug)]
pub struct BlockPipeline {
    /// The block's position in its run.
    pub index: usize,
    pub meta: BlockMetadata,
    /// Whether a previous block's proof is to be waited for before the block
    /// is finalized.
    pub has_previous: bool,
    /// Passed on to the backend with every task.
    pub save_inputs_on_error: bool,
    /// Whether the durations of the stages are reported.
    pub timed: bool,
    pub stage: Stage,
    pub stats: BlockStats,
    /// One slot for each transaction's proof.
    pub tx_proofs: Vec<Option<Vec<u8>>>,
    /// The aggregate, while the previous block's proof is waited for.
    pub agg: Vec<u8>,
    pub entered: Clock,
    pub prepared: u64,
    pub folded: u64,
    pub failure: Option<ProveError>,
}

impl BlockPipeline {
    pub open spec fn wf(self) -> bool {
        &&& (self.stage == Stage::Failed) == self.failure.is_some()
        &&& self.failure matches Some(error) ==> error.block == self.index
        &&& self.stage == Stage::MappingTxProofs ==> !all_proved(self.tx_proofs@)
        &&& self.stage == Stage::AwaitingPrevious ==> self.has_previous
    }

    /// The error that a failure of this kind in the current stage gives.
    pub open spec fn error(self, kind: ErrorKind) -> ProveError {
        ProveError { kind, stage: self.stage, block: self.index }
    }

    /// The step fails the block with an error of this kind.
    pub open spec fn fails(self, kind: ErrorKind, post: BlockPipeline, action: Action) -> bool {
        &&& post == (BlockPipeline { stage: Stage::Failed, failure: Some(self.error(kind)), ..self })
        &&& action == Action::Abort(self.error(kind))
    }

    /// A length of time as it is reported: only by a timed pipeline.
    pub open spec fn reported(self, duration: u64) -> Option<u64> {
        if self.timed {
            Some(duration)
        } else {
            None
        }
    }

    /// What is reported when the block is finalized with `proof` at `now`.
    pub open spec fn benchmarked(self, proof: GeneratedBlockProof, now: Clock)
        -> BenchmarkedGeneratedBlockProof {
        BenchmarkedGeneratedBlockProof {
            proof,
            prep_dur: self.reported(elapsed(self.entered.mono, self.prepared)),
            proof_dur: self.reported(elapsed(self.prepared, self.folded)),
            agg_dur: self.reported(elapsed(self.folded, now.mono)),
            total_dur: self.reported(elapsed(self.entered.mono, now.mono)),
            n_txs: self.stats.n_txs,
            gas_used: self.stats.gas_used,
            gas_used_per_tx: self.stats.gas_used_per_tx,
            difficulty: self.stats.difficulty,
            start_time: self.entered.wall,
            end_time: now.wall,
        }
    }

    /// The decoder's answer: the statistics are taken and the transactions
    /// go to the backend, or straight to the fold where there are none.
    pub open spec fn after_decoded(
        self,
        txs: Seq<TxUnit>,
        now: Clock,
        post: BlockPipeline,
        action: Action,
    ) -> bool {
        if !stats_defined(self.meta, txs) {
            self.fails(ErrorKind::OverflowError, post, action)
        } else {
            &&& post == (BlockPipeline {
                stage: post.stage,
                stats: post.stats,
                tx_proofs: post.tx_proofs,
                prepared: now.mono,
                ..self
            })
            &&& post.stats.describes(self.meta, txs)
            &&& post.tx_proofs@ =~= Seq::new(txs.len(), |i: int| None::<Vec<u8>>)
            &&& if txs.len() == 0 {
                &&& post.stage == Stage::Folding
                &&& action matches Action::Fold { proofs, save_inputs_on_error }
                &&& proofs@.len() == 0
                &&& save_inputs_on_error == self.save_inputs_on_error
            } else {
                &&& post.stage == Stage::MappingTxProofs
                &&& action == (Action::MapTxs {
                    count: txs.len() as usize,
                    save_inputs_on_error: self.save_inputs_on_error,
                })
            }
        }
    }

    /// A transaction's proof arrives: it takes the slot of its transaction,
    /// and the fold is asked for once no slot is empty.
    pub open spec fn after_tx_proved(
        self,
        index: usize,
        proof: Vec<u8>,
        post: BlockPipeline,
        action: Action,
    ) -> bool {
        if index >= self.tx_proofs@.len() || self.tx_proofs@[index as int].is_some() {
            self.fails(ErrorKind::ContractViolation, post, action)
        } else {
            &&& post == (BlockPipeline { stage: post.stage, tx_proofs: post.tx_proofs, ..self })
            &&& post.tx_proofs@ == self.tx_proofs@.update(index as int, Some(proof))
            &&& if all_proved(post.tx_proofs@) {
                &&& post.stage == Stage::Folding
                &&& action matches Action::Fold { proofs, save_inputs_on_error }
                &&& payloads(proofs@) == in_tx_order(post.tx_proofs@)
                &&& save_inputs_on_error == self.save_inputs_on_error
            } else {
                &&& post.stage == Stage::MappingTxProofs
                &&& action == Action::Idle
            }
        }
    }

    /// The fold came back with an aggregate: the block is finalized at once
    /// where no previous proof is to be waited for.
    pub open spec fn after_folded(
        self,
        agg: Vec<u8>,
        now: Clock,
        post: BlockPipeline,
        action: Action,
    ) -> bool {
        if self.has_previous {
            &&& post == (BlockPipeline {
                stage: Stage::AwaitingPrevious,
                agg,
                folded: now.mono,
                ..self
            })
            &&& action == Action::AwaitPrevious
        } else {
            &&& post == (BlockPipeline { stage: Stage::Finalizing, folded: now.mono, ..self })
            &&& action == (Action::Finalize {
                agg,
                prev: None,
                save_inputs_on_error: self.save_inputs_on_error,
            })
        }
    }

    /// The previous block's proof arrived: the block is finalized on it.
    pub open spec fn after_previous(
        self,
        prev: GeneratedBlockProof,
        post: BlockPipeline,
        action: Action,
    ) -> bool {
        &&& post == (BlockPipeline { stage: Stage::Finalizing, agg: post.agg, ..self })
        &&& post.agg@.len() == 0
        &&& action == (Action::Finalize {
            agg: self.agg,
            prev: Some(prev),
            save_inputs_on_error: self.save_inputs_on_error,
        })
    }

    /// The block was finalized.
    pub open spec fn after_finalized(
        self,
        proof: GeneratedBlockProof,
        now: Clock,
        post: BlockPipeline,
        action: Action,
    ) -> bool {
        &&& post == (BlockPipeline { stage: Stage::Done, stats: post.stats, ..self })
        &&& post.stats == (BlockStats {
            gas_used_per_tx: post.stats.gas_used_per_tx,
            ..self.stats
        })
        &&& action == Action::Complete(self.benchmarked(proof, now))
    }

    /// What one step does: the state after it and the action it asks for,
    /// for each stage and event.
    pub open spec fn outcome(self, event: Event, now: Clock, post: BlockPipeline, action: Action)
        -> bool {
        match (self.stage, event) {
            (Stage::Done, _) | (Stage::Failed, _) => post == self && action == Action::Idle,
            (Stage::Pending, Event::Start) => {
                &&& post == (BlockPipeline { stage: Stage::Decoding, entered: now, ..self })
                &&& action == Action::Decode
            },
            (Stage::Decoding, Event::Decoded(txs)) => self.after_decoded(txs@, now, post, action),
            (Stage::Decoding, Event::DecodeFailed) => self.fails(
                ErrorKind::DecodeError,
                post,
                action,
            ),
            (Stage::MappingTxProofs, Event::TxProved { index, proof }) => self.after_tx_proved(
                index,
                proof,
                post,
                action,
            ),
            (Stage::Folding, Event::Folded(AggregatableProof::Agg(agg))) => self.after_folded(
                agg,
                now,
                post,
                action,
            ),
            (Stage::AwaitingPrevious, Event::PreviousReady(prev)) => self.after_previous(
                prev,
                post,
                action,
            ),
            (Stage::AwaitingPrevious, Event::PreviousLost) => self.fails(
                ErrorKind::ChainLinkError,
                post,
                action,
            ),
            (Stage::Finalizing, Event::Finalized(proof)) => self.after_finalized(
                proof,
                now,
                post,
                action,
            ),
            (Stage::MappingTxProofs, Event::DispatchFailed)
            | (Stage::Folding, Event::DispatchFailed)
            | (Stage::Finalizing, Event::DispatchFailed) => self.fails(
                ErrorKind::DispatchError,
                post,
                action,
            ),
            _ => self.fails(ErrorKind::ContractViolation, post, action),
        }
    }

    /// A pipeline that has not been entered yet.
    pub fn new(
        index: usize,
        meta: BlockMetadata,
        has_previous: bool,
        save_inputs_on_error: bool,
        timed: bool,
    ) -> (p: Self)
        ensures
            p.wf(),
            p.index == index,
            p.meta == meta,
            p.has_previous == has_previous,
            p.save_inputs_on_error == save_inputs_on_error,
            p.timed == timed,
            p.stage == Stage::Pending,
            p.failure.is_none(),
    {
        BlockPipeline {
            index,
            meta,
            has_previous,
            save_inputs_on_error,
            timed,
            stage: Stage::Pending,
            stats: BlockStats::empty(),
            tx_proofs: Vec::new(),
            agg: Vec::new(),
            entered: Clock { mono: 0, wall: 0 },
            prepared: 0,
            folded: 0,
            failure: None,
        }
    }

    fn fail(&mut self, kind: ErrorKind) -> (action: Action)
        requires
            old(self).stage != Stage::Failed,
        ensures
            old(self).fails(kind, *final(self), action),
    {
        let error = ProveError { kind, stage: self.stage, block: self.index };
        self.stage = Stage::Failed;
        self.failure = Some(error);
        Action::Abort(error)
    }

    fn report(&self, duration: u64) -> (r: Option<u64>)
        ensures
            r == self.reported(duration),
    {
        if self.timed {
            Some(duration)
        } else {
            None
        }
    }

    fn on_decoded(&mut self, txs: Vec<TxUnit>, now: Clock) -> (action: Action)
        requires
            old(self).wf(),
            old(self).stage == Stage::Decoding,
        ensures
            final(self).wf(),
            old(self).after_decoded(txs@, now, *final(self), action),
    {
        match block_stats(&self.meta, &txs) {
            None => self.fail(ErrorKind::OverflowError),
            Some(stats) => {
                self.stats = stats;
                self.prepared = now.mono;
                self.tx_proofs = empty_slots(txs.len());
                if txs.len() == 0 {
                    self.stage = Stage::Folding;
                    Action::Fold {
                        proofs: Vec::new(),
                        save_inputs_on_error: self.save_inputs_on_error,
                    }
                } else {
                    self.stage = Stage::MappingTxProofs;
                    assert(!self.tx_proofs@[0].is_some());
                    Action::MapTxs {
                        count: txs.len(),
                        save_inputs_on_error: self.save_inputs_on_error,
                    }
                }
            },
        }
    }

    fn on_tx_proved(&mut self, index: usize, proof: Vec<u8>) -> (action: Action)
        requires
            old(self).wf(),
            old(self).stage == Stage::MappingTxProofs,
        ensures
            final(self).wf(),
            old(self).after_tx_proved(index, proof, *final(self), action),
    {
        if index >= self.tx_proofs.len() || self.tx_proofs[index].is_some() {
            return self.fail(ErrorKind::ContractViolation);
        }
        self.tx_proofs.set(index, Some(proof));
        match collect_in_order(&self.tx_proofs) {
            Some(proofs) => {
                self.stage = Stage::Folding;
                Action::Fold { proofs, save_inputs_on_error: self.save_inputs_on_error }
            },
            None => Action::Idle,
        }
    }

    fn on_folded(&mut self, agg: Vec<u8>, now: Clock) -> (action: Action)
        requires
            old(self).wf(),
            old(self).stage == Stage::Folding,
        ensures
            final(self).wf(),
            old(self).after_folded(agg, now, *final(self), action),
    {
        self.folded = now.mono;
        if self.has_previous {
            self.agg = agg;
            self.stage = Stage::AwaitingPrevious;
            Action::AwaitPrevious
        } else {
            self.stage = Stage::Finalizing;
            Action::Finalize { agg, prev: None, save_inputs_on_error: self.save_inputs_on_error }
        }
    }

    fn on_previous(&mut self, prev: GeneratedBlockProof) -> (action: Action)
        requires
            old(self).wf(),
            old(self).stage == Stage::AwaitingPrevious,
        ensures
            final(self).wf(),
            old(self).after_previous(prev, *final(self), action),
    {
        let mut agg: Vec<u8> = Vec::new();
        core::mem::swap(&mut self.agg, &mut agg);
        self.stage = Stage::Finalizing;
        Action::Finalize { agg, prev: Some(prev), save_inputs_on_error: self.save_inputs_on_error }
    }

    fn on_finalized(&mut self, proof: GeneratedBlockProof, now: Clock) -> (action: Action)
        requires
            old(self).wf(),
            old(self).stage == Stage::Finalizing,
        ensures
            final(self).wf(),
            old(self).after_finalized(proof, now, *final(self), action),
    {
        let mut gas_used_per_tx: Vec<u64> = Vec::new();
        core::mem::swap(&mut self.stats.gas_used_per_tx, &mut gas_used_per_tx);
        self.stage = Stage::Done;
        Action::Complete(
            BenchmarkedGeneratedBlockProof {
                proof,
                prep_dur: self.report(elapsed_between(self.entered.mono, self.prepared)),
                proof_dur: self.report(elapsed_between(self.prepared, self.folded)),
                agg_dur: self.report(elapsed_between(self.folded, now.mono)),
                total_dur: self.report(elapsed_between(self.entered.mono, now.mono)),
                n_txs: self.stats.n_txs,
                gas_used: self.stats.gas_used,
                gas_used_per_tx,
                difficulty: self.stats.difficulty,
                start_time: self.entered.wall,
                end_time: now.wall,
            },
        )
    }

    /// Takes one event and says what to do next.
    ///
    /// A finished or failed pipeline ignores every event. An event that does
    /// not belong to the current stage fails the block.
    pub fn step(&mut self, event: Event, now: Clock) -> (action: Action)
        requires
            old(self).wf(),
        ensures
            final(self).wf(),
            old(self).outcome(event, now, *final(self), action),
    {
        match (self.stage, event) {
            (Stage::Done, _) | (Stage::Failed, _) => Action::Idle,
            (Stage::Pending, Event::Start) => {
                self.stage = Stage::Decoding;
                self.entered = now;
                Action::Decode
            },
            (Stage::Decoding, Event::Decoded(txs)) => self.on_decoded(txs, now),
            (Stage::Decoding, Event::DecodeFailed) => self.fail(ErrorKind::DecodeError),
            (Stage::MappingTxProofs, Event::TxProved { index, proof }) => self.on_tx_proved(
                index,
                proof,
            ),
            (Stage::Folding, Event::Folded(AggregatableProof::Agg(agg))) => self.on_folded(
                agg,
                now,
            ),
            (Stage::AwaitingPrevious, Event::PreviousReady(prev)) => self.on_previous(prev),
            (Stage::AwaitingPrevious, Event::PreviousLost) => self.fail(
                ErrorKind::ChainLinkError,
            ),
            (Stage::Finalizing, Event::Finalized(proof)) => self.on_finalized(proof, now),
            (Stage::MappingTxProofs, Event::DispatchFailed)
            | (Stage::Folding, Event::DispatchFailed)
            | (Stage::Finalizing, Event::DispatchFailed) => self.fail(ErrorKind::DispatchError),
            _ => self.fail(ErrorKind::ContractViolation),
        }
    }
}

impl BlockPipeline {
    /// As [`BlockPipeline::step`], at the time that `watch` shows when the
    /// event is taken, beside the wall clock as the caller read it.
    pub fn step_now(&mut self, watch: &Stopwatch, wall: i64, event: Event) -> (action: Action)
        requires
            old(self).wf(),
        ensures
            final(self).wf(),
            exists|mono: u64|
                old(self).outcome(event, Clock { mono, wall }, *final(self), action),
    {
        let now = watch.read(wall);
        let action = self.step(event, now);
        assert(old(self).outcome(event, Clock { mono: now.mono, wall }, *self, action));
        action
    }
}

/// The slots after these proofs arrived, each with the index of its
/// transaction, in the order of the sequence.
pub open spec fn arrived(slots: Seq<Option<Vec<u8>>>, arrivals: Seq<(usize, Vec<u8>)>) -> Seq<
    Option<Vec<u8>>,
>
    decreases arrivals.len(),
{
    if arrivals.len() == 0 {
        slots
    } else {
        arrived(slots, arrivals.drop_last()).update(
            arrivals.last().0 as int,
            Some(arrivals.last().1),
        )
    }
}

/// The order in which the proofs of a block's transactions arrive does not
/// show in what is folded: where every arrival is for a transaction of the
/// block and no transaction has two, each proof stands at the index of its
/// transaction.
pub proof fn arrival_order_is_immaterial(
    slots: Seq<Option<Vec<u8>>>,
    arrivals: Seq<(usize, Vec<u8>)>,
)
    requires
        forall|k: int| 0 <= k < arrivals.len() ==> (#[trigger] arrivals[k]).0 < slots.len(),
        forall|k: int, l: int|
            0 <= k < l < arrivals.len() ==> (#[trigger] arrivals[k]).0 != (#[trigger] arrivals[l]).0,
    ensures
        arrived(slots, arrivals).len() == slots.len(),
        forall|k: int|
            0 <= k < arrivals.len() ==> arrived(slots, arrivals)[(#[trigger] arrivals[k]).0 as int]
                == Some(arrivals[k].1),
        forall|k: int|
            0 <= k < arrivals.len() ==> in_tx_order(arrived(slots, arrivals))[(
            #[trigger] arrivals[k]).0 as int] == arrivals[k].1@,
    decreases arrivals.len(),
{
    if arrivals.len() > 0 {
        let earlier = arrivals.drop_last();
        assert forall|k: int| 0 <= k < earlier.len() implies (#[trigger] earlier[k]).0
            < slots.len() by {
            assert(earlier[k] == arrivals[k]);
        }
        assert forall|k: int, l: int| 0 <= k < l < earlier.len() implies (#[trigger] earlier[k]).0
            != (#[trigger] earlier[l]).0 by {
            assert(earlier[k] == arrivals[k]);
            assert(earlier[l] == arrivals[l]);
        }
        arrival_order_is_immaterial(slots, earlier);
        let last = arrivals.len() - 1;
        assert forall|k: int| 0 <= k < arrivals.len() implies arrived(slots, arrivals)[(
        #[trigger] arrivals[k]).0 as int] == Some(arrivals[k].1) by {
            if k < last {
                assert(earlier[k] == arrivals[k]);
                assert(arrivals[k].0 != arrivals[last].0);
            }
        }
    }
}

/// Under a clock that does not run backwards, the stages of a timed block
/// account for all of its time: the total is the sum of preparation, proving
/// and aggregation, so it is at least as long as each of them.
pub proof fn stage_durations_add_up(pipeline: BlockPipeline, proof: GeneratedBlockProof, now: Clock)
    requires
        pipeline.timed,
        pipeline.entered.mono <= pipeline.prepared <= pipeline.folded <= now.mono,
    ensures
        ({
            let result = pipeline.benchmarked(proof, now);
            result.total_dur.unwrap() == result.prep_dur.unwrap() + result.proof_dur.unwrap()
                + result.agg_dur.unwrap()
        }),
{
}

/// Which step sets which mark of time: the entry is marked when the
/// pipeline is entered, the end of the preparation when the decoder's answer
/// is taken, and the end of the proving when the aggregate arrives; no other
/// step moves a mark. A finished block reports the time between those marks:
/// the proving from the decoder's answer to the aggregate, the aggregation
/// from the aggregate to the finalized proof, and the total from the entry
/// to the finalized proof.
pub proof fn stage_marks_are_set_once(
    pre: BlockPipeline,
    event: Event,
    now: Clock,
    post: BlockPipeline,
    action: Action,
)
    requires
        pre.wf(),
        pre.outcome(event, now, post, action),
    ensures
        post.timed == pre.timed,
        post.entered == (if pre.stage == Stage::Pending && event is Start {
            now
        } else {
            pre.entered
        }),
        post.prepared == (if pre.stage == Stage::Decoding && event is Decoded && post.stage
            != Stage::Failed {
            now.mono
        } else {
            pre.prepared
        }),
        post.folded == (if pre.stage == Stage::Folding && event matches Event::Folded(
            AggregatableProof::Agg(_),
        ) {
            now.mono
        } else {
            pre.folded
        }),
        action matches Action::Complete(result) ==> {
            &&& pre.stage == Stage::Finalizing
            &&& event matches Event::Finalized(proof) && result.proof == proof
            &&& result.prep_dur == pre.reported(elapsed(pre.entered.mono, pre.prepared))
            &&& result.proof_dur == pre.reported(elapsed(pre.prepared, pre.folded))
            &&& result.agg_dur == pre.reported(elapsed(pre.folded, now.mono))
            &&& result.total_dur == pre.reported(elapsed(pre.entered.mono, now.mono))
            &&& result.start_time == pre.entered.wall
            &&& result.end_time == now.wall
        },
{
}

/// How far a stage is on the way to a proof.
pub open spec fn progress(stage: Stage) -> int {
    match stage {
        Stage::Pending => 0,
        Stage::Decoding => 1,
        Stage::MappingTxProofs => 2,
        Stage::Folding => 3,
        Stage::AwaitingPrevious => 4,
        Stage::Finalizing => 5,
        Stage::Done => 6,
        Stage::Failed => 7,
    }
}

impl BlockPipeline {
    /// The event is the success that the pipeline waits for in its stage:
    /// the entry, a decoding whose quantities fit in 64 bits, the proof of a
    /// transaction that has none yet, an aggregate, the previous proof, the
    /// finalized proof.
    pub open spec fn awaits(self, event: Event) -> bool {
        match (self.stage, event) {
            (Stage::Pending, Event::Start) => true,
            (Stage::Decoding, Event::Decoded(txs)) => stats_defined(self.meta, txs@),
            (Stage::MappingTxProofs, Event::TxProved { index, proof }) => index
                < self.tx_proofs@.len() && self.tx_proofs@[index as int].is_none(),
            (Stage::Folding, Event::Folded(AggregatableProof::Agg(_))) => true,
            (Stage::AwaitingPrevious, Event::PreviousReady(_)) => true,
            (Stage::Finalizing, Event::Finalized(_)) => true,
            _ => false,
        }
    }
}

/// A pipeline that gets the success it waits for does not fail, and moves
/// on: to a later stage, or within the map stage by one more proof.
pub proof fn success_moves_on(
    pre: BlockPipeline,
    event: Event,
    now: Clock,
    post: BlockPipeline,
    action: Action,
)
    requires
        pre.wf(),
        pre.awaits(event),
        pre.outcome(event, now, post, action),
    ensures
        post.stage != Stage::Failed,
        !(action is Abort),
        progress(post.stage) > progress(pre.stage) || post.stage == Stage::MappingTxProofs,
        event matches Event::TxProved { index, proof } ==> post.tx_proofs@
            == pre.tx_proofs@.update(index as int, Some(proof)),
{
}

/// A failure names the block and the stage in which it happened, whatever
/// its kind.
pub proof fn failure_names_stage(
    pre: BlockPipeline,
    event: Event,
    now: Clock,
    post: BlockPipeline,
    action: Action,
)
    requires
        pre.wf(),
        pre.outcome(event, now, post, action),
    ensures
        action matches Action::Abort(error) ==> {
            &&& error.block == pre.index
            &&& error.stage == pre.stage
            &&& post.stage == Stage::Failed
            &&& post.failure == Some(error)
        },
        post.stage == Stage::Failed && pre.stage != Stage::Failed ==> action is Abort,
{
}

/// A block whose only transaction is proved is folded over that one proof.
pub proof fn single_proof_is_folded_alone(
    pre: BlockPipeline,
    proof: Vec<u8>,
    now: Clock,
    post: BlockPipeline,
    action: Action,
)
    requires
        pre.wf(),
        pre.stage == Stage::MappingTxProofs,
        pre.tx_proofs@.len() == 1,
        pre.outcome(Event::TxProved { index: 0, proof }, now, post, action),
    ensures
        action matches Action::Fold { proofs, .. } && payloads(proofs@) == seq![proof@],
{
    assert(pre.tx_proofs@[0].is_none());
    assert(all_proved(post.tx_proofs@));
    if let Action::Fold { proofs, .. } = action {
        assert(payloads(proofs@) =~= seq![proof@]);
    }
}

/// Some arrival is for the transaction at `index`.
pub open spec fn has_arrival(arrivals: Seq<(usize, Vec<u8>)>, index: int) -> bool {
    exists|k: int| 0 <= k < arrivals.len() && (#[trigger] arrivals[k]).0 == index
}

/// The arrivals are one for each of the block's transactions: every index
/// is that of a transaction, no transaction has two arrivals, and none has
/// none.
pub open spec fn one_arrival_each(arrivals: Seq<(usize, Vec<u8>)>) -> bool {
    &&& forall|k: int| 0 <= k < arrivals.len() ==> (#[trigger] arrivals[k]).0 < arrivals.len()
    &&& forall|k: int, l: int|
        0 <= k < l < arrivals.len() ==> (#[trigger] arrivals[k]).0 != (#[trigger] arrivals[l]).0
    &&& forall|index: int| 0 <= index < arrivals.len() ==> #[trigger] has_arrival(arrivals, index)
}

/// The states and actions are those of a map stage that takes the arrivals
/// one after the other: the first state is a map stage with one empty slot
/// for each arrival, and each step takes the next arrival.
pub open spec fn map_stage_run(
    states: Seq<BlockPipeline>,
    arrivals: Seq<(usize, Vec<u8>)>,
    times: Seq<Clock>,
    actions: Seq<Action>,
) -> bool {
    &&& states.len() == arrivals.len() + 1
    &&& times.len() == arrivals.len()
    &&& actions.len() == arrivals.len()
    &&& states[0].stage == Stage::MappingTxProofs
    &&& states[0].tx_proofs@.len() == arrivals.len()
    &&& forall|j: int| 0 <= j < arrivals.len() ==> (#[trigger] states[0].tx_proofs@[j]).is_none()
    &&& forall|k: int|
        0 <= k < arrivals.len() ==> (#[trigger] states[k]).outcome(
            Event::TxProved { index: arrivals[k].0, proof: arrivals[k].1 },
            times[k],
            states[k + 1],
            actions[k],
        )
}

/// A slot that no arrival is for stays as it was.
proof fn untouched_slot_stays(
    slots: Seq<Option<Vec<u8>>>,
    arrivals: Seq<(usize, Vec<u8>)>,
    index: int,
)
    requires
        forall|k: int| 0 <= k < arrivals.len() ==> (#[trigger] arrivals[k]).0 < slots.len(),
        forall|k: int| 0 <= k < arrivals.len() ==> (#[trigger] arrivals[k]).0 != index,
        0 <= index < slots.len(),
    ensures
        arrived(slots, arrivals).len() == slots.len(),
        arrived(slots, arrivals)[index] == slots[index],
    decreases arrivals.len(),
{
    if arrivals.len() > 0 {
        let earlier = arrivals.drop_last();
        assert forall|k: int| 0 <= k < earlier.len() implies (#[trigger] earlier[k]).0
            < slots.len() && earlier[k].0 != index by {
            assert(earlier[k] == arrivals[k]);
        }
        untouched_slot_stays(slots, earlier, index);
        assert(arrivals.last() == arrivals[arrivals.len() - 1]);
    }
}

/// The state of a map stage after its first `count` arrivals.
proof fn map_stage_after(
    states: Seq<BlockPipeline>,
    arrivals: Seq<(usize, Vec<u8>)>,
    times: Seq<Clock>,
    actions: Seq<Action>,
    count: int,
)
    requires
        one_arrival_each(arrivals),
        map_stage_run(states, arrivals, times, actions),
        0 <= count <= arrivals.len(),
    ensures
        states[count].tx_proofs@ == arrived(states[0].tx_proofs@, arrivals.subrange(0, count)),
        states[count].tx_proofs@.len() == arrivals.len(),
        count < arrivals.len() ==> states[count].stage == Stage::MappingTxProofs,
        forall|k: int| 0 <= k < count && k + 1 < arrivals.len() ==> #[trigger] actions[k] == Action::Idle,
    decreases count,
{
    let empty = states[0].tx_proofs@;
    if count == 0 {
        assert(arrivals.subrange(0, 0).len() == 0);
    } else {
        map_stage_after(states, arrivals, times, actions, count - 1);
        let before = arrivals.subrange(0, count - 1);
        let upto = arrivals.subrange(0, count);
        let pre = states[count - 1];
        let post = states[count];
        let at = arrivals[count - 1].0 as int;
        assert(pre.outcome(
            Event::TxProved { index: arrivals[count - 1].0, proof: arrivals[count - 1].1 },
            times[count - 1],
            post,
            actions[count - 1],
        ));
        assert forall|k: int| 0 <= k < before.len() implies (#[trigger] before[k]).0 < empty.len()
            && before[k].0 != at by {
            assert(before[k] == arrivals[k]);
        }
        untouched_slot_stays(empty, before, at);
        assert(pre.tx_proofs@[at].is_none());
        assert(upto.drop_last() =~= before);
        assert(upto.last() == arrivals[count - 1]);
        assert(post.tx_proofs@ == arrived(empty, upto));
        if count < arrivals.len() {
            let next = arrivals[count].0 as int;
            assert forall|k: int| 0 <= k < upto.len() implies (#[trigger] upto[k]).0 < empty.len()
                && upto[k].0 != next by {
                assert(upto[k] == arrivals[k]);
            }
            untouched_slot_stays(empty, upto, next);
            assert(!post.tx_proofs@[next].is_some());
            assert(!all_proved(post.tx_proofs@));
        }
    }
}

/// Whatever the order in which the proofs of a block's transactions arrive,
/// the map stage waits until the last one is there and then asks for the
/// fold over the proofs in transaction order: the proof of each arrival
/// stands at the index of its transaction.
pub proof fn map_stage_folds_in_submission_order(
    states: Seq<BlockPipeline>,
    arrivals: Seq<(usize, Vec<u8>)>,
    times: Seq<Clock>,
    actions: Seq<Action>,
)
    requires
        arrivals.len() > 0,
        one_arrival_each(arrivals),
        map_stage_run(states, arrivals, times, actions),
    ensures
        forall|k: int| 0 <= k < arrivals.len() - 1 ==> #[trigger] actions[k] == Action::Idle,
        states.last().stage == Stage::Folding,
        actions.last() matches Action::Fold { proofs, save_inputs_on_error } && {
            &&& save_inputs_on_error == states[0].save_inputs_on_error
            &&& proofs@.len() == arrivals.len()
            &&& forall|k: int|
                0 <= k < arrivals.len() ==> proofs@[(#[trigger] arrivals[k]).0 as int]@
                    == arrivals[k].1@
        },
{
    let total = arrivals.len() as int;
    let empty = states[0].tx_proofs@;
    map_stage_after(states, arrivals, times, actions, total);
    map_stage_after(states, arrivals, times, actions, total - 1);
    assert(arrivals.subrange(0, total) =~= arrivals);
    arrival_order_is_immaterial(empty, arrivals);
    let pre = states[total - 1];
    let post = states[total];
    assert(pre.outcome(
        Event::TxProved { index: arrivals[total - 1].0, proof: arrivals[total - 1].1 },
        times[total - 1],
        post,
        actions[total - 1],
    ));
    let before = arrivals.subrange(0, total - 1);
    let at = arrivals[total - 1].0 as int;
    assert forall|k: int| 0 <= k < before.len() implies (#[trigger] before[k]).0 < empty.len()
        && before[k].0 != at by {
        assert(before[k] == arrivals[k]);
    }
    untouched_slot_stays(empty, before, at);
    assert(pre.tx_proofs@[at].is_none());
    assert forall|index: int| 0 <= index < post.tx_proofs@.len() implies (
    #[trigger] post.tx_proofs@[index]).is_some() by {
        assert(has_arrival(arrivals, index));
        let k = choose|k: int| 0 <= k < arrivals.len() && (#[trigger] arrivals[k]).0 == index;
        assert(arrived(empty, arrivals)[arrivals[k].0 as int] == Some(arrivals[k].1));
    }
    assert(all_proved(post.tx_proofs@));
    if let Action::Fold { proofs, save_inputs_on_error } = actions[total - 1] {
        assert(payloads(proofs@).len() == post.tx_proofs@.len());
        assert forall|k: int| 0 <= k < arrivals.len() implies proofs@[(
        #[trigger] arrivals[k]).0 as int]@ == arrivals[k].1@ by {
            let index = arrivals[k].0 as int;
            assert(payloads(proofs@)[index] == proofs@[index]@);
            assert(in_tx_order(post.tx_proofs@)[index] == arrivals[k].1@);
        }
    }
    assert(states[0].save_inputs_on_error == pre.save_inputs_on_error) by {
        map_stage_keeps_setup(states, arrivals, times, actions, total - 1);
    }
}

/// A map stage keeps the flag that it passes on to the backend.
proof fn map_stage_keeps_setup(
    states: Seq<BlockPipeline>,
    arrivals: Seq<(usize, Vec<u8>)>,
    times: Seq<Clock>,
    actions: Seq<Action>,
    count: int,
)
    requires
        one_arrival_each(arrivals),
        map_stage_run(states, arrivals, times, actions),
        0 <= count < arrivals.len(),
    ensures
        states[count].save_inputs_on_error == states[0].save_inputs_on_error,
        states[count].stage == Stage::MappingTxProofs,
    decreases count,
{
    map_stage_after(states, arrivals, times, actions, count);
    if count > 0 {
        map_stage_keeps_setup(states, arrivals, times, actions, count - 1);
        map_stage_after(states, arrivals, times, actions, count - 1);
        let pre = states[count - 1];
        assert(pre.outcome(
            Event::TxProved { index: arrivals[count - 1].0, proof: arrivals[count - 1].1 },
            times[count - 1],
            states[count],
            actions[count - 1],
        ));
    }
}

} // verus!
