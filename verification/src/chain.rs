//! A run over a contiguous range of blocks.
//!
//! Every block has its own pipeline, and the pipelines advance independently
//! of each other up to the point where a block is finalized: that needs the
//! finished proof of the block before it. The run hands each finished proof
//! on to the next block and gathers the results in block order.

use vstd::prelude::*;
use crate::clock::Stopwatch;
use crate::pipeline::{
    Action, AggregatableProof, BenchmarkedGeneratedBlockProof, BlockPipeline, Clock, Event,
    GeneratedBlockProof, ProveError, Stage,
};
use crate::stats::{BlockMetadata, BlockStats};
use crate::word::Word256;

verus! {

/// One block to prove.
#[derive(Debug, Clone, Copy)]
pub struct BlockProverInput {
    pub other_data: BlockMetadata,
}

/// The blocks of one run, in chain order.
#[derive(Debug, Clone)]
pub struct ProverInput {
    pub blocks: Vec<BlockProverInput>,
}

/// What the caller of a run is to do next.
#[derive(Debug, Clone)]
pub enum ChainAction {
    /// Nothing: the event was not taken.
    Idle,
    /// Perform `action` for the block at `index`.
    Block { index: usize, action: Action },
    /// Every block is proved: the proofs, in block order.
    Finished(Vec<BenchmarkedGeneratedBlockProof>),
    /// The run failed: the error of the first block, in block order, that
    /// failed.
    Failed(ProveError),
}

/// A run in progress.
#[derive(Debug)]
pub struct ChainRun {
    pub blocks: Vec<BlockPipeline>,
    /// The proof that the first block is finalized on, if the run continues
    /// a chain.
    pub previous: Option<GeneratedBlockProof>,
    /// The results of the finished blocks, in block order.
    pub proofs: Vec<BenchmarkedGeneratedBlockProof>,
    /// How many blocks are finished.
    pub done: usize,
    /// The results were handed out.
    pub finished: bool,
    /// The error that ended the run: that of the first unfinished block,
    /// once that block has failed.
    pub failure: Option<ProveError>,
}

/// The aggregate that a fold came back with, if the event is that.
pub open spec fn folded_aggregate(event: Event) -> Option<Vec<u8>> {
    match event {
        Event::Folded(AggregatableProof::Agg(agg)) => Some(agg),
        _ => None,
    }
}

/// The proof that a finalize task came back with, if the event is that.
pub open spec fn finalized_proof(event: Event) -> Option<GeneratedBlockProof> {
    match event {
        Event::Finalized(proof) => Some(proof),
        _ => None,
    }
}

impl BlockProverInput {
    pub fn get_block_number(&self) -> (n: Word256)
        ensures
            n == self.other_data.block_number,
    {
        self.other_data.block_number
    }

    /// The pipeline that proves this block alone. `has_previous` says
    /// whether the proof of a block before it will be supplied.
    pub fn prove(self, has_previous: bool, save_inputs_on_error: bool) -> (p: BlockPipeline)
        ensures
            p.wf(),
            p.stage == Stage::Pending,
            p.index == 0,
            p.meta == self.other_data,
            p.has_previous == has_previous,
            p.save_inputs_on_error == save_inputs_on_error,
            !p.timed,
    {
        BlockPipeline::new(0, self.other_data, has_previous, save_inputs_on_error, false)
    }

    /// As [`BlockProverInput::prove`], with the durations of the stages
    /// reported.
    pub fn prove_and_benchmark(self, has_previous: bool, save_inputs_on_error: bool) -> (p:
        BlockPipeline)
        ensures
            p.wf(),
            p.stage == Stage::Pending,
            p.index == 0,
            p.meta == self.other_data,
            p.has_previous == has_previous,
            p.save_inputs_on_error == save_inputs_on_error,
            p.timed,
    {
        BlockPipeline::new(0, self.other_data, has_previous, save_inputs_on_error, true)
    }
}

impl ChainRun {
    /// The blocks up to `count` are linked as the run's invariant asks.
    pub open spec fn linked(self, count: int) -> bool {
        forall|i: int|
            0 <= i < count ==> {
                let block = #[trigger] self.blocks@[i];
                &&& block.wf()
                &&& block.index == i
                &&& block.has_previous == (i > 0 || self.previous.is_some())
                &&& (block.stage == Stage::Done) == (i < self.done)
                &&& block.stage == Stage::Finalizing ==> i == self.done
                &&& block.stage == Stage::AwaitingPrevious ==> i > self.done
                &&& i == self.done ==> block.failure == self.failure
            }
    }

    /// The result at each position belongs to the block at that position.
    pub open spec fn matched(self) -> bool {
        forall|i: int|
            0 <= i < self.proofs@.len() ==> {
                let result = #[trigger] self.proofs@[i];
                &&& result.n_txs == self.blocks@[i].stats.n_txs
                &&& result.gas_used == self.blocks@[i].stats.gas_used
                &&& result.difficulty == self.blocks@[i].stats.difficulty
            }
    }

    pub open spec fn wf(self) -> bool {
        &&& self.done <= self.blocks@.len()
        &&& self.finished == (self.done == self.blocks@.len())
        &&& self.finished ==> self.failure.is_none()
        &&& self.proofs@.len() == (if self.finished {
            0
        } else {
            self.done as int
        })
        &&& self.linked(self.blocks@.len() as int)
        &&& self.matched()
    }

    /// The run takes no event: it failed or finished, there is no such
    /// block, or the event claims to be a previous proof, which only the run
    /// itself hands on.
    pub open spec fn inert(self, index: usize, event: Event) -> bool {
        ||| self.failure.is_some()
        ||| self.finished
        ||| index >= self.blocks@.len()
        ||| event is PreviousReady
    }

    /// The proof that the block at `index` is finalized on: the one the run
    /// was started with for the first block, and the finished proof of the
    /// block before it for every other.
    pub open spec fn link(self, index: int) -> (u64, Seq<u8>) {
        if index == 0 {
            self.previous.unwrap()@
        } else {
            self.proofs@[index - 1].proof@
        }
    }

    /// What the block at `index` answered, as the run's answer shows it: a
    /// failure of the run is the failure of that block.
    pub open spec fn answer_of(index: usize, action: ChainAction) -> Option<Action> {
        match action {
            ChainAction::Block { index: at, action: inner } => if at == index {
                Some(inner)
            } else {
                None
            },
            ChainAction::Failed(error) => Some(Action::Abort(error)),
            _ => None,
        }
    }

    /// The event goes to its block, and the block's answer goes to the
    /// caller. A failure of the first unfinished block ends the run with
    /// that block's error. A failure of a later block stays with that block:
    /// the run goes on for the blocks before it.
    pub open spec fn passes_on(
        self,
        index: usize,
        event: Event,
        now: Clock,
        post: ChainRun,
        action: ChainAction,
    ) -> bool {
        &&& Self::answer_of(index, action) matches Some(inner)
        &&& self.blocks@[index as int].outcome(event, now, post.blocks@[index as int], inner)
        &&& post.blocks@ == self.blocks@.update(index as int, post.blocks@[index as int])
        &&& post == (ChainRun { blocks: post.blocks, failure: post.failure, ..self })
        &&& (action is Failed) == (inner is Abort && index == self.done)
        &&& post.failure == (match action {
            ChainAction::Failed(error) => Some(error),
            _ => None,
        })
    }

    /// The aggregate of the first unfinished block arrives: the proof before
    /// it is there, so the block is finalized without waiting.
    pub open spec fn links_at_once(
        self,
        index: usize,
        agg: Vec<u8>,
        now: Clock,
        post: ChainRun,
        action: ChainAction,
    ) -> bool {
        let block = self.blocks@[index as int];
        &&& action matches ChainAction::Block {
            index: at,
            action: Action::Finalize { agg: handed, prev: Some(prev), save_inputs_on_error },
        }
        &&& at == index
        &&& handed == agg
        &&& prev@ == self.link(index as int)
        &&& save_inputs_on_error == block.save_inputs_on_error
        &&& post.blocks@[index as int] == (BlockPipeline {
            stage: Stage::Finalizing,
            folded: now.mono,
            agg: post.blocks@[index as int].agg,
            ..block
        })
        &&& post.blocks@ == self.blocks@.update(index as int, post.blocks@[index as int])
        &&& post == (ChainRun { blocks: post.blocks, ..self })
    }

    /// A block is finalized: its result is recorded. Then the run is
    /// finished; or the next block is finalized on the new proof, if it was
    /// waiting for it; or the run fails with the next block's error, if that
    /// block has failed already.
    pub open spec fn records(
        self,
        index: usize,
        proof: GeneratedBlockProof,
        now: Clock,
        post: ChainRun,
        action: ChainAction,
    ) -> bool {
        let block = self.blocks@[index as int];
        let result = block.benchmarked(proof, now);
        let after = post.blocks@[index as int];
        &&& after == (BlockPipeline { stage: Stage::Done, stats: after.stats, ..block })
        &&& after.stats == (BlockStats {
            gas_used_per_tx: after.stats.gas_used_per_tx,
            ..block.stats
        })
        &&& post == (ChainRun {
            blocks: post.blocks,
            proofs: post.proofs,
            done: (self.done + 1) as usize,
            finished: index + 1 == self.blocks@.len(),
            failure: post.failure,
            ..self
        })
        &&& if index + 1 == self.blocks@.len() {
            &&& action matches ChainAction::Finished(results)
            &&& results@ == self.proofs@.push(result)
            &&& post.blocks@ == self.blocks@.update(index as int, after)
            &&& post.failure.is_none()
        } else {
            let next = self.blocks@[index + 1];
            &&& post.proofs@ == self.proofs@.push(result)
            &&& post.failure == next.failure
            &&& if next.stage == Stage::Failed {
                &&& action == ChainAction::Failed(next.failure.unwrap())
                &&& post.blocks@ == self.blocks@.update(index as int, after)
            } else if next.stage == Stage::AwaitingPrevious {
                &&& action matches ChainAction::Block {
                    index: at,
                    action: Action::Finalize {
                        agg: handed,
                        prev: Some(prev),
                        save_inputs_on_error,
                    },
                }
                &&& at == index + 1
                &&& handed == next.agg
                &&& prev@ == proof@
                &&& save_inputs_on_error == next.save_inputs_on_error
                &&& post.blocks@[index + 1] == (BlockPipeline {
                    stage: Stage::Finalizing,
                    agg: post.blocks@[index + 1].agg,
                    ..next
                })
                &&& post.blocks@ == self.blocks@.update(index as int, after).update(
                    index + 1,
                    post.blocks@[index + 1],
                )
            } else {
                &&& action == (ChainAction::Block { index, action: Action::Idle })
                &&& post.blocks@ == self.blocks@.update(index as int, after)
            }
        }
    }

    /// What one step of the run does.
    pub open spec fn outcome(
        self,
        index: usize,
        event: Event,
        now: Clock,
        post: ChainRun,
        action: ChainAction,
    ) -> bool {
        if self.inert(index, event) {
            post == self && action == ChainAction::Idle
        } else {
            let block = self.blocks@[index as int];
            if block.stage == Stage::Folding && folded_aggregate(event).is_some()
                && block.has_previous && index == self.done {
                self.links_at_once(index, folded_aggregate(event).unwrap(), now, post, action)
            } else if block.stage == Stage::Finalizing && finalized_proof(event).is_some() {
                self.records(index, finalized_proof(event).unwrap(), now, post, action)
            } else {
                self.passes_on(index, event, now, post, action)
            }
        }
    }

    /// A copy of the proof that the first unfinished block is finalized on.
    fn link_copy(&self, index: usize) -> (prev: GeneratedBlockProof)
        requires
            index == 0 ==> self.previous.is_some(),
            index > 0 ==> index - 1 < self.proofs@.len(),
        ensures
            prev@ == self.link(index as int),
    {
        if index == 0 {
            match &self.previous {
                Some(proof) => proof.duplicate(),
                None => GeneratedBlockProof { b_height: 0, intern: Vec::new() },
            }
        } else {
            self.proofs[index - 1].proof.duplicate()
        }
    }

    /// Takes one event for the block at `index` and says what to do next.
    pub fn step(&mut self, index: usize, event: Event, now: Clock) -> (action: ChainAction)
        requires
            old(self).wf(),
        ensures
            final(self).wf(),
            old(self).outcome(index, event, now, *final(self), action),
    {
        if self.failure.is_some() || self.finished || index >= self.blocks.len() {
            return ChainAction::Idle;
        }
        if let Event::PreviousReady(_) = &event {
            return ChainAction::Idle;
        }
        let ghost pre = *self;
        let inner = self.blocks[index].step(event, now);
        proof {
            assert(self.blocks@ =~= pre.blocks@.update(index as int, self.blocks@[index as int]));
        }
        match inner {
            Action::Abort(error) => {
                if index == self.done {
                    self.failure = Some(error);
                    ChainAction::Failed(error)
                } else {
                    ChainAction::Block { index, action: Action::Abort(error) }
                }
            },
            Action::AwaitPrevious => {
                if index == self.done {
                    let prev = self.link_copy(index);
                    let ghost mid = *self;
                    let next = self.blocks[index].step(Event::PreviousReady(prev), now);
                    proof {
                        assert(mid.blocks@[index as int].stage == Stage::AwaitingPrevious);
                        assert(self.blocks@ =~= pre.blocks@.update(
                            index as int,
                            self.blocks@[index as int],
                        ));
                    }
                    ChainAction::Block { index, action: next }
                } else {
                    ChainAction::Block { index, action: Action::AwaitPrevious }
                }
            },
            Action::Complete(result) => {
                let link = result.proof.duplicate();
                self.proofs.push(result);
                self.done = self.done + 1;
                if self.done == self.blocks.len() {
                    self.finished = true;
                    let mut results: Vec<BenchmarkedGeneratedBlockProof> = Vec::new();
                    core::mem::swap(&mut self.proofs, &mut results);
                    ChainAction::Finished(results)
                } else if self.blocks[self.done].stage == Stage::AwaitingPrevious {
                    let at = self.done;
                    let next = self.blocks[at].step(Event::PreviousReady(link), now);
                    ChainAction::Block { index: at, action: next }
                } else if let Some(error) = self.blocks[self.done].failure {
                    self.failure = Some(error);
                    ChainAction::Failed(error)
                } else {
                    ChainAction::Block { index, action: Action::Idle }
                }
            },
            other => ChainAction::Block { index, action: other },
        }
    }
}

impl ChainRun {
    /// As [`ChainRun::step`], at the time that `watch` shows when the event
    /// is taken, beside the wall clock as the caller read it.
    pub fn step_now(&mut self, watch: &Stopwatch, wall: i64, index: usize, event: Event) -> (action:
        ChainAction)
        requires
            old(self).wf(),
        ensures
            final(self).wf(),
            exists|mono: u64|
                old(self).outcome(index, event, Clock { mono, wall }, *final(self), action),
    {
        let now = watch.read(wall);
        let action = self.step(index, event, now);
        assert(old(self).outcome(index, event, Clock { mono: now.mono, wall }, *self, action));
        action
    }
}

impl ProverInput {
    /// The run over these blocks, with every block still to be entered.
    fn start(self, previous: Option<GeneratedBlockProof>, save_inputs_on_error: bool, timed: bool)
        -> (run: ChainRun)
        ensures
            run.wf(),
            run.begins(self, save_inputs_on_error, timed),
            run.previous == previous,
    {
        let mut blocks: Vec<BlockPipeline> = Vec::new();
        let has_previous = previous.is_some();
        let mut i: usize = 0;
        while i < self.blocks.len()
            invariant
                i <= self.blocks.len(),
                blocks@.len() == i,
                has_previous == previous.is_some(),
                forall|j: int|
                    0 <= j < i ==> {
                        let block = #[trigger] blocks@[j];
                        &&& block.wf()
                        &&& block.stage == Stage::Pending
                        &&& block.index == j
                        &&& block.meta == self.blocks@[j].other_data
                        &&& block.has_previous == (j > 0 || has_previous)
                        &&& block.save_inputs_on_error == save_inputs_on_error
                        &&& block.timed == timed
                    },
            decreases self.blocks.len() - i,
        {
            let block = BlockPipeline::new(
                i,
                self.blocks[i].other_data,
                i > 0 || has_previous,
                save_inputs_on_error,
                timed,
            );
            blocks.push(block);
            i = i + 1;
        }
        let finished = self.blocks.len() == 0;
        ChainRun { blocks, previous, proofs: Vec::new(), done: 0, finished, failure: None }
    }

    /// The run that proves these blocks, finalizing the first one on
    /// `previous_proof` where there is one.
    pub fn prove(self, previous_proof: Option<GeneratedBlockProof>, save_inputs_on_error: bool)
        -> (run: ChainRun)
        ensures
            run.wf(),
            run.begins(self, save_inputs_on_error, false),
            run.previous == previous_proof,
    {
        self.start(previous_proof, save_inputs_on_error, false)
    }

    /// As [`ProverInput::prove`], with the durations of the stages reported.
    pub fn prove_and_benchmark(
        self,
        previous_proof: Option<BenchmarkedGeneratedBlockProof>,
        save_inputs_on_error: bool,
    ) -> (run: ChainRun)
        ensures
            run.wf(),
            run.begins(self, save_inputs_on_error, true),
            run.previous == (match previous_proof {
                Some(benchmarked) => Some(benchmarked.proof),
                None => None,
            }),
    {
        let previous = match previous_proof {
            Some(benchmarked) => Some(benchmarked.into_proof()),
            None => None,
        };
        self.start(previous, save_inputs_on_error, true)
    }
}

impl ChainRun {
    /// The state of a run over `input` before any event: one pending
    /// pipeline for each block, in block order, and no result yet. A run
    /// over no block is finished from the start.
    pub open spec fn begins(self, input: ProverInput, save_inputs_on_error: bool, timed: bool)
        -> bool {
        &&& self.blocks@.len() == input.blocks@.len()
        &&& self.done == 0
        &&& self.proofs@.len() == 0
        &&& self.failure.is_none()
        &&& self.finished == (input.blocks@.len() == 0)
        &&& forall|i: int|
            0 <= i < self.blocks@.len() ==> {
                let block = #[trigger] self.blocks@[i];
                &&& block.stage == Stage::Pending
                &&& block.meta == input.blocks@[i].other_data
                &&& block.save_inputs_on_error == save_inputs_on_error
                &&& block.timed == timed
            }
    }
}

/// Whenever a run asks for a block to be finalized, it is the first
/// unfinished block, and it is finalized on the finished proof of the block
/// before it; the first block of the run on the proof the run was started
/// with, or on none where there was none.
pub proof fn finalize_is_linked(
    pre: ChainRun,
    index: usize,
    event: Event,
    now: Clock,
    post: ChainRun,
    action: ChainAction,
)
    requires
        pre.wf(),
        pre.outcome(index, event, now, post, action),
    ensures
        action matches ChainAction::Block { index: at, action: Action::Finalize { prev, .. } }
            ==> {
            &&& at == post.done
            &&& at > 0 ==> prev.is_some() && prev.unwrap()@ == post.proofs@[at - 1].proof@
            &&& at == 0 ==> prev.is_some() == pre.previous.is_some()
            &&& at == 0 && prev.is_some() ==> prev.unwrap()@ == pre.previous.unwrap()@
        },
{
    if !pre.inert(index, event) {
        assert(pre.blocks@[index as int].wf());
    }
}

/// A run that hands out its results hands out one for each block, in block
/// order: the results of the earlier blocks as they were recorded, then the
/// result of the last block, which holds the proof that just arrived.
pub proof fn finished_in_block_order(
    pre: ChainRun,
    index: usize,
    event: Event,
    now: Clock,
    post: ChainRun,
    action: ChainAction,
)
    requires
        pre.wf(),
        pre.outcome(index, event, now, post, action),
    ensures
        action matches ChainAction::Finished(results) ==> {
            &&& results@.len() == pre.blocks@.len()
            &&& index + 1 == pre.blocks@.len()
            &&& forall|i: int| 0 <= i < index ==> results@[i] == pre.proofs@[i]
            &&& results@[index as int].proof == finalized_proof(event).unwrap()
            &&& forall|i: int|
                0 <= i < results@.len() ==> (#[trigger] results@[i]).n_txs
                    == pre.blocks@[i].stats.n_txs
        },
{
    if !pre.inert(index, event) {
        assert(pre.blocks@[index as int].wf());
        if let ChainAction::Finished(results) = action {
            assert forall|i: int| 0 <= i < results@.len() implies (#[trigger] results@[i]).n_txs
                == pre.blocks@[i].stats.n_txs by {
                if i < index {
                    assert(pre.proofs@[i].n_txs == pre.blocks@[i].stats.n_txs);
                }
            }
        }
    }
}

/// A run is all or nothing: once it failed, it takes no event and hands
/// out nothing. It fails with the error of the first block, in block order,
/// that failed: every block before that one is finished, and the error names
/// that block's position. A failure of a later block does not end the run.
pub proof fn failure_ends_run(
    pre: ChainRun,
    index: usize,
    event: Event,
    now: Clock,
    post: ChainRun,
    action: ChainAction,
)
    requires
        pre.wf(),
        post.wf(),
        pre.outcome(index, event, now, post, action),
    ensures
        pre.failure.is_some() ==> post == pre && action == ChainAction::Idle,
        post.failure.is_some() ==> !(action is Finished),
        (action is Failed) == (pre.failure.is_none() && post.failure.is_some()),
        action matches ChainAction::Failed(error) ==> {
            &&& post.failure == Some(error)
            &&& error.block == post.done
            &&& post.blocks@[post.done as int].failure == Some(error)
            &&& forall|i: int| 0 <= i < post.done ==> (#[trigger] post.blocks@[i]).stage == Stage::Done
        },
        action matches ChainAction::Block { index: at, action: Action::Abort(error) } ==> {
            &&& at == index
            &&& index > pre.done
            &&& post.failure.is_none()
            &&& post.blocks@[index as int].failure == Some(error)
            &&& error.stage == pre.blocks@[index as int].stage
        },
{
    if !pre.inert(index, event) {
        assert(pre.blocks@[index as int].wf());
        assert(post.blocks@[index as int].wf());
    }
    if post.failure.is_some() {
        assert(post.blocks@[post.done as int].wf());
    }
}

/// The error that a failed run holds is that of the first block, in block
/// order, that failed: every block before it is finished.
pub proof fn surfaced_failure_is_first_in_block_order(run: ChainRun)
    requires
        run.wf(),
        run.failure.is_some(),
    ensures
        run.done < run.blocks@.len(),
        run.blocks@[run.done as int].stage == Stage::Failed,
        run.blocks@[run.done as int].failure == run.failure,
        run.failure.unwrap().block == run.done,
        forall|i: int| 0 <= i < run.done ==> (#[trigger] run.blocks@[i]).stage == Stage::Done,
{
    assert(run.blocks@[run.done as int].wf());
}

/// A run that is neither failed nor finished has a first unfinished block,
/// and that block never waits for a previous proof: the proof it needs is
/// there, so the chain cannot stall on its links.
pub proof fn first_unfinished_block_never_waits(run: ChainRun)
    requires
        run.wf(),
        run.failure.is_none(),
        !run.finished,
    ensures
        run.done < run.blocks@.len(),
        run.blocks@[run.done as int].stage != Stage::AwaitingPrevious,
        run.blocks@[run.done as int].stage != Stage::Done,
        run.blocks@[run.done as int].stage != Stage::Failed,
        forall|i: int| 0 <= i < run.done ==> (#[trigger] run.blocks@[i]).stage == Stage::Done,
{
    assert(run.blocks@[run.done as int].wf());
}

/// A run that continues no chain finalizes its first block as soon as the
/// block's aggregate is there, on no previous proof.
pub proof fn genesis_block_does_not_wait(
    pre: ChainRun,
    agg: Vec<u8>,
    now: Clock,
    post: ChainRun,
    action: ChainAction,
)
    requires
        pre.wf(),
        pre.previous.is_none(),
        pre.failure.is_none(),
        pre.blocks@.len() > 0,
        pre.blocks@[0].stage == Stage::Folding,
        pre.outcome(0, Event::Folded(AggregatableProof::Agg(agg)), now, post, action),
    ensures
        action == (ChainAction::Block {
            index: 0,
            action: Action::Finalize {
                agg,
                prev: None,
                save_inputs_on_error: pre.blocks@[0].save_inputs_on_error,
            },
        }),
        post.blocks@[0].stage == Stage::Finalizing,
{
    assert(pre.blocks@[0].wf());
}

impl ChainRun {
    /// No block of the run has failed.
    pub open spec fn sound(self) -> bool {
        forall|i: int| 0 <= i < self.blocks@.len() ==> (#[trigger] self.blocks@[i]).stage
            != Stage::Failed
    }
}

/// A run in which no block has failed, and whose block gets the success it
/// waits for, does not fail: no block fails by that step, and the run
/// answers with something to do for a block or with its results.
pub proof fn success_keeps_run_sound(
    pre: ChainRun,
    index: usize,
    event: Event,
    now: Clock,
    post: ChainRun,
    action: ChainAction,
)
    requires
        pre.wf(),
        pre.sound(),
        !pre.inert(index, event),
        pre.blocks@[index as int].awaits(event),
        pre.outcome(index, event, now, post, action),
    ensures
        post.sound(),
        post.failure.is_none(),
        action is Block || action is Finished,
        !(action matches ChainAction::Block { action: Action::Abort(_), .. }),
{
    let block = pre.blocks@[index as int];
    assert(block.wf());
    assert(pre.failure.is_none());
    if block.stage == Stage::Folding && folded_aggregate(event).is_some() && block.has_previous
        && index == pre.done {
        assert forall|i: int| 0 <= i < post.blocks@.len() implies (#[trigger] post.blocks@[i]).stage
            != Stage::Failed by {
            if i != index {
                assert(post.blocks@[i] == pre.blocks@[i]);
            }
        }
    } else if block.stage == Stage::Finalizing && finalized_proof(event).is_some() {
        if index + 1 < pre.blocks@.len() {
            assert(pre.blocks@[index + 1].stage != Stage::Failed);
        }
        assert forall|i: int| 0 <= i < post.blocks@.len() implies (#[trigger] post.blocks@[i]).stage
            != Stage::Failed by {
            if i != index && i != index + 1 {
                assert(post.blocks@[i] == pre.blocks@[i]);
            }
        }
    } else {
        let inner = ChainRun::answer_of(index, action).unwrap();
        crate::pipeline::success_moves_on(block, event, now, post.blocks@[index as int], inner);
        assert forall|i: int| 0 <= i < post.blocks@.len() implies (#[trigger] post.blocks@[i]).stage
            != Stage::Failed by {
            if i != index {
                assert(post.blocks@[i] == pre.blocks@[i]);
            }
        }
    }
}

/// The states and actions are those of a run that takes the steps one
/// after the other: each step leads from one state to the next and gives
/// the action at its place.
pub open spec fn run_of_steps(
    states: Seq<ChainRun>,
    steps: Seq<(usize, Event, Clock)>,
    actions: Seq<ChainAction>,
) -> bool {
    &&& states.len() == steps.len() + 1
    &&& actions.len() == steps.len()
    &&& forall|k: int| 0 <= k <= steps.len() ==> (#[trigger] states[k]).wf()
    &&& forall|k: int|
        0 <= k < steps.len() ==> (#[trigger] states[k]).outcome(
            steps[k].0,
            steps[k].1,
            steps[k].2,
            states[k + 1],
            actions[k],
        )
}

/// A run that failed or finished stays as it is, whatever steps follow, and
/// answers each of them with nothing.
pub proof fn ended_run_takes_nothing(
    states: Seq<ChainRun>,
    steps: Seq<(usize, Event, Clock)>,
    actions: Seq<ChainAction>,
    from: int,
    to: int,
)
    requires
        run_of_steps(states, steps, actions),
        0 <= from <= to <= steps.len(),
        states[from].failure.is_some() || states[from].finished,
    ensures
        states[to] == states[from],
        forall|k: int| from <= k < to ==> #[trigger] actions[k] == ChainAction::Idle,
    decreases to - from,
{
    if from < to {
        ended_run_takes_nothing(states, steps, actions, from, to - 1);
        assert(states[to - 1].outcome(
            steps[to - 1].0,
            steps[to - 1].1,
            steps[to - 1].2,
            states[to],
            actions[to - 1],
        ));
    }
}

/// While a run has not handed out its results, what it recorded stays: a
/// later state holds every result of an earlier one at the same position,
/// over the same blocks and the same starting proof.
pub proof fn recorded_results_stay(
    states: Seq<ChainRun>,
    steps: Seq<(usize, Event, Clock)>,
    actions: Seq<ChainAction>,
    from: int,
    to: int,
)
    requires
        run_of_steps(states, steps, actions),
        0 <= from <= to <= steps.len(),
        !states[to].finished,
    ensures
        !states[from].finished,
        states[from].previous == states[to].previous,
        states[from].blocks@.len() == states[to].blocks@.len(),
        states[from].proofs@.len() <= states[to].proofs@.len(),
        forall|i: int|
            0 <= i < states[from].proofs@.len() ==> #[trigger] states[to].proofs@[i]
                == states[from].proofs@[i],
    decreases to - from,
{
    if from < to {
        let pre = states[to - 1];
        let post = states[to];
        assert(pre.wf());
        assert(pre.outcome(steps[to - 1].0, steps[to - 1].1, steps[to - 1].2, post, actions[to - 1]));
        if pre.finished {
            ended_run_takes_nothing(states, steps, actions, to - 1, to);
        }
        recorded_results_stay(states, steps, actions, from, to - 1);
        assert(pre.blocks@.len() == post.blocks@.len());
        assert(pre.proofs@.len() <= post.proofs@.len());
        assert forall|i: int| 0 <= i < pre.proofs@.len() implies #[trigger] post.proofs@[i]
            == pre.proofs@[i] by {}
    }
}

/// Over a whole run that ends with its results: there is one result for
/// each block of the run, and every block that was asked to be finalized
/// was finalized on the proof that the run returns for the block before it;
/// the first block on the proof the run was started with, or on none where
/// there was none.
pub proof fn whole_run_is_linked(
    states: Seq<ChainRun>,
    steps: Seq<(usize, Event, Clock)>,
    actions: Seq<ChainAction>,
    asked: int,
)
    requires
        run_of_steps(states, steps, actions),
        steps.len() > 0,
        actions.last() is Finished,
        0 <= asked < steps.len(),
    ensures
        actions.last() matches ChainAction::Finished(results) && {
            &&& results@.len() == states[0].blocks@.len()
            &&& actions[asked] matches ChainAction::Block {
                index: at,
                action: Action::Finalize { prev, .. },
            } ==> {
                &&& at < results@.len()
                &&& at > 0 ==> prev.is_some() && prev.unwrap()@ == results@[at - 1].proof@
                &&& at == 0 ==> prev.is_some() == states[0].previous.is_some()
                &&& at == 0 && prev.is_some() ==> prev.unwrap()@ == states[0].previous.unwrap()@
            }
        },
{
    let last = steps.len() - 1;
    let end = states[last];
    assert(end.wf());
    assert(end.outcome(steps[last].0, steps[last].1, steps[last].2, states[last + 1], actions[last]));
    finished_in_block_order(
        end,
        steps[last].0,
        steps[last].1,
        steps[last].2,
        states[last + 1],
        actions[last],
    );
    assert(!end.inert(steps[last].0, steps[last].1));
    recorded_results_stay(states, steps, actions, 0, last);
    if let ChainAction::Block { index: at, action: Action::Finalize { prev, .. } } = actions[asked] {
        let pre = states[asked];
        let post = states[asked + 1];
        assert(pre.wf());
        assert(post.wf());
        assert(pre.outcome(steps[asked].0, steps[asked].1, steps[asked].2, post, actions[asked]));
        finalize_is_linked(pre, steps[asked].0, steps[asked].1, steps[asked].2, post, actions[asked]);
        recorded_results_stay(states, steps, actions, asked + 1, last);
        recorded_results_stay(states, steps, actions, asked, last);
        assert(post.proofs@.len() == post.done);
        if let ChainAction::Finished(results) = actions[last] {
            if at > 0 {
                assert(end.proofs@[at - 1] == post.proofs@[at - 1]);
                assert(results@[at - 1] == end.proofs@[at - 1]);
            }
        }
    }
}

/// A run ends once: after it failed or handed out its results, every
/// further step is answered with nothing, so a failed run hands out no
/// result and a finished one does not fail.
pub proof fn run_ends_once(
    states: Seq<ChainRun>,
    steps: Seq<(usize, Event, Clock)>,
    actions: Seq<ChainAction>,
    ended: int,
    later: int,
)
    requires
        run_of_steps(states, steps, actions),
        0 <= ended < later < steps.len(),
        actions[ended] is Failed || actions[ended] is Finished,
    ensures
        actions[later] == ChainAction::Idle,
        states[later + 1] == states[ended + 1],
{
    let pre = states[ended];
    let post = states[ended + 1];
    assert(pre.wf());
    assert(post.wf());
    assert(pre.outcome(steps[ended].0, steps[ended].1, steps[ended].2, post, actions[ended]));
    failure_ends_run(pre, steps[ended].0, steps[ended].1, steps[ended].2, post, actions[ended]);
    if !pre.inert(steps[ended].0, steps[ended].1) {
        assert(pre.blocks@[steps[ended].0 as int].wf());
    }
    assert(post.failure.is_some() || post.finished);
    ended_run_takes_nothing(states, steps, actions, ended + 1, later + 1);
}

} // verus!
