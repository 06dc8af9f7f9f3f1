use chain_prover::chain::{BlockProverInput, ChainAction, ChainRun, ProverInput};
use chain_prover::pipeline::{
    Action, AggregatableProof, BenchmarkedGeneratedBlockProof, BlockPipeline, Clock, ErrorKind,
    Event, GeneratedBlockProof, ProveError, Stage,
};
use chain_prover::stats::{BlockMetadata, TxUnit};
use chain_prover::word::Word256;

fn word(value: u64) -> Word256 {
    Word256::from_u64(value)
}

fn block(number: u64, gas: u64) -> BlockProverInput {
    BlockProverInput {
        other_data: BlockMetadata {
            block_number: word(number),
            block_gas_used: word(gas),
            block_difficulty: word(2),
        },
    }
}

fn units(count: u64) -> Vec<TxUnit> {
    (0..count)
        .map(|i| TxUnit { gas_used_before: word(i * 10), gas_used_after: word(i * 10 + 10) })
        .collect()
}

fn at(mono: u64) -> Clock {
    Clock { mono, wall: 1_700_000_000_000 + mono as i64 }
}

/// The proof that the stand-in backend gives for a transaction of a block.
fn tx_proof(height: u64, index: usize) -> Vec<u8> {
    vec![b't', height as u8, index as u8]
}

/// The stand-in fold: the proofs one after the other, so that their order
/// shows in the result.
fn fold(proofs: &[Vec<u8>]) -> Vec<u8> {
    proofs.concat()
}

/// The stand-in finalize: the aggregate bound to the previous payload.
fn finalize(height: u64, agg: &[u8], prev: &Option<GeneratedBlockProof>) -> GeneratedBlockProof {
    let mut intern = vec![b'b', height as u8];
    if let Some(prev) = prev {
        intern.extend_from_slice(&prev.intern);
    }
    intern.push(b'|');
    intern.extend_from_slice(agg);
    GeneratedBlockProof { b_height: height, intern }
}

/// A backend that always succeeds and answers at once, with the tasks of
/// the blocks taken up in the given order and the transactions of each block
/// completing back to front.
struct Backend {
    heights: Vec<u64>,
    tx_counts: Vec<u64>,
    fail_tx: Option<(usize, usize)>,
    finalize_inputs: Vec<(usize, Option<GeneratedBlockProof>)>,
    time: u64,
}

impl Backend {
    fn new(heights: &[u64], tx_counts: &[u64]) -> Self {
        Backend {
            heights: heights.to_vec(),
            tx_counts: tx_counts.to_vec(),
            fail_tx: None,
            finalize_inputs: Vec::new(),
            time: 0,
        }
    }

    fn tick(&mut self) -> Clock {
        self.time += 1;
        at(self.time)
    }

    /// Performs what the run asks for and feeds the events back, until the
    /// run has nothing more to ask. Gives the proofs or the error that the
    /// run ended with, if it ended.
    fn perform(
        &mut self,
        run: &mut ChainRun,
        first: ChainAction,
    ) -> Option<Result<Vec<BenchmarkedGeneratedBlockProof>, ProveError>> {
        let mut pending = vec![first];
        while let Some(asked) = pending.pop() {
            let (index, action) = match asked {
                ChainAction::Idle => continue,
                ChainAction::Finished(results) => return Some(Ok(results)),
                ChainAction::Failed(error) => return Some(Err(error)),
                ChainAction::Block { index, action } => (index, action),
            };
            match action {
                Action::Idle | Action::AwaitPrevious | Action::Abort(_) => {}
                Action::Complete(_) => unreachable!(),
                Action::Decode => {
                    let now = self.tick();
                    let txs = units(self.tx_counts[index]);
                    pending.push(run.step(index, Event::Decoded(txs), now));
                }
                Action::MapTxs { count, .. } => {
                    for tx in (0..count).rev() {
                        let now = self.tick();
                        let event = if self.fail_tx == Some((index, tx)) {
                            Event::DispatchFailed
                        } else {
                            Event::TxProved { index: tx, proof: tx_proof(self.heights[index], tx) }
                        };
                        match run.step(index, event, now) {
                            ChainAction::Failed(error) => return Some(Err(error)),
                            ChainAction::Block { action: Action::Abort(_), .. } => break,
                            next => pending.push(next),
                        }
                    }
                }
                Action::Fold { proofs, .. } => {
                    let now = self.tick();
                    let event = Event::Folded(AggregatableProof::Agg(fold(&proofs)));
                    pending.push(run.step(index, event, now));
                }
                Action::Finalize { agg, prev, .. } => {
                    let now = self.tick();
                    let proof = finalize(self.heights[index], &agg, &prev);
                    self.finalize_inputs.push((index, prev));
                    pending.push(run.step(index, Event::Finalized(proof), now));
                }
            }
        }
        None
    }

    /// Enters the blocks in the given order and performs everything.
    fn run(
        &mut self,
        run: &mut ChainRun,
        order: &[usize],
    ) -> Option<Result<Vec<BenchmarkedGeneratedBlockProof>, ProveError>> {
        for &index in order {
            let now = self.tick();
            let first = run.step(index, Event::Start, now);
            if let Some(end) = self.perform(run, first) {
                return Some(end);
            }
        }
        None
    }
}

fn three_blocks() -> ProverInput {
    ProverInput { blocks: vec![block(10, 30), block(11, 20), block(12, 10)] }
}

#[test]
fn run_returns_one_proof_per_block_in_block_order() {
    let mut backend = Backend::new(&[10, 11, 12], &[3, 2, 1]);
    let mut run = three_blocks().prove(None, false);
    let results = backend.run(&mut run, &[0, 1, 2]).expect("ended").expect("proved");
    assert_eq!(results.len(), 3);
    let heights: Vec<u64> = results.iter().map(|r| r.proof.b_height).collect();
    assert_eq!(heights, vec![10, 11, 12]);
    let counts: Vec<u64> = results.iter().map(|r| r.n_txs).collect();
    assert_eq!(counts, vec![3, 2, 1]);
}

#[test]
fn each_block_is_finalized_on_the_proof_before_it() {
    let mut backend = Backend::new(&[10, 11, 12], &[3, 2, 1]);
    let mut run = three_blocks().prove(None, false);
    let results = backend.run(&mut run, &[0, 1, 2]).expect("ended").expect("proved");
    assert_eq!(backend.finalize_inputs.len(), 3);
    for (at, (index, prev)) in backend.finalize_inputs.iter().enumerate() {
        assert_eq!(*index, at);
        match prev {
            None => assert_eq!(at, 0),
            Some(prev) => {
                assert_eq!(prev.b_height, results[at - 1].proof.b_height);
                assert_eq!(prev.intern, results[at - 1].proof.intern);
            }
        }
    }
}

#[test]
fn blocks_entered_back_to_front_still_finish_in_block_order() {
    let mut backend = Backend::new(&[10, 11, 12], &[3, 2, 1]);
    let mut run = three_blocks().prove(None, false);
    let results = backend.run(&mut run, &[2, 1, 0]).expect("ended").expect("proved");
    let heights: Vec<u64> = results.iter().map(|r| r.proof.b_height).collect();
    assert_eq!(heights, vec![10, 11, 12]);
    let finalized: Vec<usize> = backend.finalize_inputs.iter().map(|(index, _)| *index).collect();
    assert_eq!(finalized, vec![0, 1, 2]);
    let straight = {
        let mut backend = Backend::new(&[10, 11, 12], &[3, 2, 1]);
        let mut run = three_blocks().prove(None, false);
        backend.run(&mut run, &[0, 1, 2]).expect("ended").expect("proved")
    };
    for (a, b) in results.iter().zip(straight.iter()) {
        assert_eq!(a.proof.intern, b.proof.intern);
    }
}

#[test]
fn later_blocks_wait_only_with_their_finalize() {
    let mut run = three_blocks().prove(None, false);
    assert!(matches!(
        run.step(1, Event::Start, at(1)),
        ChainAction::Block { index: 1, action: Action::Decode }
    ));
    assert!(matches!(
        run.step(1, Event::Decoded(units(1)), at(2)),
        ChainAction::Block { index: 1, action: Action::MapTxs { count: 1, save_inputs_on_error: false } }
    ));
    assert!(matches!(
        run.step(1, Event::TxProved { index: 0, proof: vec![7] }, at(3)),
        ChainAction::Block { index: 1, action: Action::Fold { .. } }
    ));
    assert!(matches!(
        run.step(1, Event::Folded(AggregatableProof::Agg(vec![7])), at(4)),
        ChainAction::Block { index: 1, action: Action::AwaitPrevious }
    ));
    assert_eq!(run.blocks[1].stage, Stage::AwaitingPrevious);
    assert_eq!(run.blocks[0].stage, Stage::Pending);
}

#[test]
fn transaction_proofs_are_folded_in_submission_order() {
    let mut pipeline = block(5, 30).prove(false, false);
    assert!(matches!(pipeline.step(Event::Start, at(1)), Action::Decode));
    assert!(matches!(
        pipeline.step(Event::Decoded(units(3)), at(2)),
        Action::MapTxs { count: 3, save_inputs_on_error: false }
    ));
    assert!(matches!(
        pipeline.step(Event::TxProved { index: 2, proof: vec![2, 2] }, at(3)),
        Action::Idle
    ));
    assert!(matches!(
        pipeline.step(Event::TxProved { index: 1, proof: vec![1] }, at(4)),
        Action::Idle
    ));
    match pipeline.step(Event::TxProved { index: 0, proof: vec![0, 0, 0] }, at(5)) {
        Action::Fold { proofs, save_inputs_on_error } => {
            assert_eq!(proofs, vec![vec![0, 0, 0], vec![1], vec![2, 2]]);
            assert!(!save_inputs_on_error);
        }
        other => panic!("{:?}", other),
    }
    assert_eq!(pipeline.stage, Stage::Folding);
}

#[test]
fn single_transaction_is_folded_to_its_own_proof() {
    let mut backend = Backend::new(&[4], &[1]);
    let mut run = ProverInput { blocks: vec![block(4, 10)] }.prove(None, false);
    let results = backend.run(&mut run, &[0]).expect("ended").expect("proved");
    assert_eq!(results.len(), 1);
    let expected = finalize(4, &tx_proof(4, 0), &None);
    assert_eq!(results[0].proof.intern, expected.intern);
}

#[test]
fn genesis_block_is_finalized_without_waiting() {
    let mut pipeline = block(0, 10).prove(false, true);
    pipeline.step(Event::Start, at(1));
    pipeline.step(Event::Decoded(units(1)), at(2));
    pipeline.step(Event::TxProved { index: 0, proof: vec![1] }, at(3));
    match pipeline.step(Event::Folded(AggregatableProof::Agg(vec![9, 9])), at(4)) {
        Action::Finalize { agg, prev, save_inputs_on_error } => {
            assert_eq!(agg, vec![9, 9]);
            assert!(prev.is_none());
            assert!(save_inputs_on_error);
        }
        other => panic!("{:?}", other),
    }
    assert_eq!(pipeline.stage, Stage::Finalizing);
    let proof = GeneratedBlockProof { b_height: 0, intern: vec![5] };
    match pipeline.step(Event::Finalized(proof), at(5)) {
        Action::Complete(result) => {
            assert_eq!(result.proof.b_height, 0);
            assert_eq!(result.proof.intern, vec![5]);
            assert_eq!(result.prep_dur, None);
            assert_eq!(result.total_dur, None);
        }
        other => panic!("{:?}", other),
    }
    assert_eq!(pipeline.stage, Stage::Done);
}

#[test]
fn resumed_chain_finalizes_first_block_on_supplied_proof() {
    let previous = GeneratedBlockProof { b_height: 9, intern: vec![1, 2, 3] };
    let mut backend = Backend::new(&[10, 11], &[1, 1]);
    let mut run = ProverInput { blocks: vec![block(10, 10), block(11, 10)] }
        .prove(Some(previous.clone()), false);
    let results = backend.run(&mut run, &[0, 1]).expect("ended").expect("proved");
    assert_eq!(results.len(), 2);
    let first = backend.finalize_inputs[0].1.as_ref().expect("linked");
    assert_eq!(first.b_height, 9);
    assert_eq!(first.intern, vec![1, 2, 3]);
    assert_eq!(results[0].proof.intern, finalize(10, &tx_proof(10, 0), &Some(previous)).intern);
}

#[test]
fn standalone_block_waits_for_its_previous_proof() {
    let mut pipeline = block(8, 10).prove(true, false);
    pipeline.step(Event::Start, at(1));
    pipeline.step(Event::Decoded(units(1)), at(2));
    pipeline.step(Event::TxProved { index: 0, proof: vec![1] }, at(3));
    assert!(matches!(
        pipeline.step(Event::Folded(AggregatableProof::Agg(vec![6])), at(4)),
        Action::AwaitPrevious
    ));
    let previous = GeneratedBlockProof { b_height: 7, intern: vec![4, 4] };
    match pipeline.step(Event::PreviousReady(previous), at(5)) {
        Action::Finalize { agg, prev, .. } => {
            assert_eq!(agg, vec![6]);
            let prev = prev.expect("linked");
            assert_eq!(prev.b_height, 7);
            assert_eq!(prev.intern, vec![4, 4]);
        }
        other => panic!("{:?}", other),
    }
}

#[test]
fn benchmark_durations_cover_injected_delays() {
    let d1: u64 = 700;
    let d2: u64 = 300;
    let mut pipeline = block(3, 20).prove_and_benchmark(false, false);
    pipeline.step(Event::Start, at(1_000));
    pipeline.step(Event::Decoded(units(2)), at(1_050));
    pipeline.step(Event::TxProved { index: 1, proof: vec![1] }, at(1_050 + d1 / 2));
    pipeline.step(Event::TxProved { index: 0, proof: vec![0] }, at(1_050 + d1 / 2));
    pipeline.step(Event::Folded(AggregatableProof::Agg(vec![0, 1])), at(1_050 + d1));
    let proof = GeneratedBlockProof { b_height: 3, intern: vec![8] };
    let result = match pipeline.step(Event::Finalized(proof), at(1_050 + d1 + d2)) {
        Action::Complete(result) => result,
        other => panic!("{:?}", other),
    };
    assert_eq!(result.prep_dur, Some(50));
    assert_eq!(result.proof_dur, Some(d1));
    assert_eq!(result.agg_dur, Some(d2));
    assert_eq!(result.total_dur, Some(50 + d1 + d2));
    assert!(result.proof_dur.unwrap() >= d1);
    assert!(result.agg_dur.unwrap() >= d2);
    assert!(result.total_dur.unwrap() >= d1 + d2);
    assert_eq!(result.start_time, at(1_000).wall);
    assert_eq!(result.end_time, at(1_050 + d1 + d2).wall);
    assert_eq!(result.n_txs, 2);
    assert_eq!(result.gas_used, 20);
    assert_eq!(result.gas_used_per_tx, vec![10, 10]);
    assert_eq!(result.difficulty, 2);
}

#[test]
fn clock_running_backwards_gives_zero_durations() {
    let mut pipeline = block(3, 0).prove_and_benchmark(false, false);
    pipeline.step(Event::Start, at(500));
    pipeline.step(Event::Decoded(Vec::new()), at(400));
    pipeline.step(Event::Folded(AggregatableProof::Agg(vec![1])), at(300));
    let proof = GeneratedBlockProof { b_height: 3, intern: vec![8] };
    let result = match pipeline.step(Event::Finalized(proof), at(200)) {
        Action::Complete(result) => result,
        other => panic!("{:?}", other),
    };
    assert_eq!(result.prep_dur, Some(0));
    assert_eq!(result.proof_dur, Some(0));
    assert_eq!(result.agg_dur, Some(0));
    assert_eq!(result.total_dur, Some(0));
}

#[test]
fn benchmarked_run_reports_statistics_per_block() {
    let mut backend = Backend::new(&[10, 11, 12], &[3, 2, 1]);
    let mut run = three_blocks().prove_and_benchmark(None, true);
    let results = backend.run(&mut run, &[0, 1, 2]).expect("ended").expect("proved");
    assert_eq!(results.len(), 3);
    assert_eq!(results[0].gas_used_per_tx, vec![10, 10, 10]);
    assert_eq!(results[1].gas_used_per_tx, vec![10, 10]);
    assert_eq!(results[2].gas_used, 10);
    for result in &results {
        assert!(result.total_dur.is_some());
        assert!(result.total_dur.unwrap() >= result.proof_dur.unwrap() + result.agg_dur.unwrap());
    }
    let plain = results[1].clone().into_proof();
    assert_eq!(plain.b_height, 11);
    let converted: GeneratedBlockProof = results[2].clone().into();
    assert_eq!(converted.b_height, 12);
    assert_eq!(converted.intern, results[2].proof.intern);
}

#[test]
fn failed_transaction_aborts_the_run_and_names_block_and_stage() {
    let mut backend = Backend::new(&[10, 11, 12], &[3, 2, 1]);
    backend.fail_tx = Some((1, 0));
    let mut run = three_blocks().prove(None, false);
    let end = backend.run(&mut run, &[0, 1, 2]).expect("ended");
    let error = end.expect_err("aborted");
    assert_eq!(
        error,
        ProveError { kind: ErrorKind::DispatchError, stage: Stage::MappingTxProofs, block: 1 }
    );
    assert_eq!(run.blocks[0].stage, Stage::Done);
    assert_eq!(run.failure, Some(error));
    assert!(matches!(run.step(2, Event::Start, at(99)), ChainAction::Idle));
    assert!(matches!(run.step(0, Event::Start, at(99)), ChainAction::Idle));
    assert!(!run.finished);
}

#[test]
fn decode_failure_aborts_before_any_dispatch() {
    let mut pipeline = block(1, 1).prove(false, false);
    pipeline.step(Event::Start, at(1));
    match pipeline.step(Event::DecodeFailed, at(2)) {
        Action::Abort(error) => assert_eq!(
            error,
            ProveError { kind: ErrorKind::DecodeError, stage: Stage::Decoding, block: 0 }
        ),
        other => panic!("{:?}", other),
    }
    assert_eq!(pipeline.stage, Stage::Failed);
    assert!(matches!(pipeline.step(Event::Decoded(units(1)), at(3)), Action::Idle));
}

#[test]
fn wide_gas_is_an_overflow_error() {
    let mut pipeline = block(1, 1).prove(false, false);
    pipeline.step(Event::Start, at(1));
    let txs = vec![TxUnit {
        gas_used_before: word(0),
        gas_used_after: Word256 { hi: 1, lo: 0 },
    }];
    match pipeline.step(Event::Decoded(txs), at(2)) {
        Action::Abort(error) => {
            assert_eq!(error.kind, ErrorKind::OverflowError);
            assert_eq!(error.stage, Stage::Decoding);
        }
        other => panic!("{:?}", other),
    }
}

#[test]
fn fold_that_is_no_aggregate_is_a_contract_violation() {
    let mut pipeline = block(1, 10).prove(false, false);
    pipeline.step(Event::Start, at(1));
    pipeline.step(Event::Decoded(units(1)), at(2));
    pipeline.step(Event::TxProved { index: 0, proof: vec![1] }, at(3));
    match pipeline.step(Event::Folded(AggregatableProof::Txn(vec![1])), at(4)) {
        Action::Abort(error) => assert_eq!(
            error,
            ProveError { kind: ErrorKind::ContractViolation, stage: Stage::Folding, block: 0 }
        ),
        other => panic!("{:?}", other),
    }
}

#[test]
fn lost_previous_proof_is_a_chain_link_error() {
    let mut pipeline = block(1, 10).prove(true, false);
    pipeline.step(Event::Start, at(1));
    pipeline.step(Event::Decoded(units(1)), at(2));
    pipeline.step(Event::TxProved { index: 0, proof: vec![1] }, at(3));
    pipeline.step(Event::Folded(AggregatableProof::Agg(vec![1])), at(4));
    match pipeline.step(Event::PreviousLost, at(5)) {
        Action::Abort(error) => assert_eq!(
            error,
            ProveError {
                kind: ErrorKind::ChainLinkError,
                stage: Stage::AwaitingPrevious,
                block: 0
            }
        ),
        other => panic!("{:?}", other),
    }
}

#[test]
fn failed_fold_and_finalize_are_dispatch_errors() {
    let mut pipeline = block(1, 0).prove(false, false);
    pipeline.step(Event::Start, at(1));
    pipeline.step(Event::Decoded(Vec::new()), at(2));
    assert_eq!(pipeline.stage, Stage::Folding);
    match pipeline.step(Event::DispatchFailed, at(3)) {
        Action::Abort(error) => {
            assert_eq!(error.kind, ErrorKind::DispatchError);
            assert_eq!(error.stage, Stage::Folding);
        }
        other => panic!("{:?}", other),
    }
    let mut pipeline = block(1, 0).prove(false, false);
    pipeline.step(Event::Start, at(1));
    pipeline.step(Event::Decoded(Vec::new()), at(2));
    pipeline.step(Event::Folded(AggregatableProof::Agg(vec![1])), at(3));
    match pipeline.step(Event::DispatchFailed, at(4)) {
        Action::Abort(error) => {
            assert_eq!(error.kind, ErrorKind::DispatchError);
            assert_eq!(error.stage, Stage::Finalizing);
        }
        other => panic!("{:?}", other),
    }
}

#[test]
fn second_proof_for_a_transaction_is_refused() {
    let mut pipeline = block(1, 20).prove(false, false);
    pipeline.step(Event::Start, at(1));
    pipeline.step(Event::Decoded(units(2)), at(2));
    pipeline.step(Event::TxProved { index: 1, proof: vec![1] }, at(3));
    match pipeline.step(Event::TxProved { index: 1, proof: vec![1] }, at(4)) {
        Action::Abort(error) => assert_eq!(error.kind, ErrorKind::ContractViolation),
        other => panic!("{:?}", other),
    }
    let mut pipeline = block(1, 20).prove(false, false);
    pipeline.step(Event::Start, at(1));
    pipeline.step(Event::Decoded(units(2)), at(2));
    match pipeline.step(Event::TxProved { index: 2, proof: vec![1] }, at(3)) {
        Action::Abort(error) => assert_eq!(error.kind, ErrorKind::ContractViolation),
        other => panic!("{:?}", other),
    }
}

#[test]
fn event_out_of_stage_fails_the_block() {
    let mut pipeline = BlockPipeline::new(4, block(1, 0).other_data, false, false, false);
    match pipeline.step(Event::Finalized(GeneratedBlockProof { b_height: 1, intern: vec![] }), at(1)) {
        Action::Abort(error) => assert_eq!(
            error,
            ProveError { kind: ErrorKind::ContractViolation, stage: Stage::Pending, block: 4 }
        ),
        other => panic!("{:?}", other),
    }
}

#[test]
fn run_over_no_block_is_finished_from_the_start() {
    let mut run = ProverInput { blocks: Vec::new() }.prove(None, false);
    assert!(run.finished);
    assert!(run.proofs.is_empty());
    assert!(matches!(run.step(0, Event::Start, at(1)), ChainAction::Idle));
}

#[test]
fn run_takes_no_previous_proof_from_outside() {
    let mut run = three_blocks().prove(None, false);
    run.step(1, Event::Start, at(1));
    run.step(1, Event::Decoded(units(1)), at(2));
    run.step(1, Event::TxProved { index: 0, proof: vec![7] }, at(3));
    run.step(1, Event::Folded(AggregatableProof::Agg(vec![7])), at(4));
    let forged = GeneratedBlockProof { b_height: 10, intern: vec![6, 6, 6] };
    assert!(matches!(run.step(1, Event::PreviousReady(forged), at(5)), ChainAction::Idle));
    assert_eq!(run.blocks[1].stage, Stage::AwaitingPrevious);
    assert!(matches!(run.step(7, Event::Start, at(6)), ChainAction::Idle));
}

#[test]
fn block_number_is_read_from_metadata() {
    assert_eq!(block(77, 0).get_block_number(), word(77));
}

#[test]
fn duplicate_keeps_height_and_payload() {
    let proof = GeneratedBlockProof { b_height: 3, intern: vec![1, 2, 3] };
    let copy = proof.duplicate();
    assert_eq!(copy.b_height, 3);
    assert_eq!(copy.intern, vec![1, 2, 3]);
}

fn two_blocks_mapping() -> ChainRun {
    let mut run = ProverInput { blocks: vec![block(10, 10), block(11, 10)] }.prove(None, false);
    for index in 0..2 {
        run.step(index, Event::Start, at(1));
        run.step(index, Event::Decoded(units(1)), at(2));
        assert_eq!(run.blocks[index].stage, Stage::MappingTxProofs);
    }
    run
}

#[test]
fn earlier_block_failure_wins_over_a_later_one_that_came_first() {
    let mut run = two_blocks_mapping();
    let later = ProveError { kind: ErrorKind::DispatchError, stage: Stage::MappingTxProofs, block: 1 };
    match run.step(1, Event::DispatchFailed, at(3)) {
        ChainAction::Block { index: 1, action: Action::Abort(error) } => assert_eq!(error, later),
        other => panic!("{:?}", other),
    }
    assert_eq!(run.failure, None);
    assert_eq!(run.blocks[1].stage, Stage::Failed);
    match run.step(0, Event::TxProved { index: 0, proof: vec![1] }, at(4)) {
        ChainAction::Block { index: 0, action: Action::Fold { .. } } => {}
        other => panic!("{:?}", other),
    }
    let earlier = ProveError { kind: ErrorKind::DispatchError, stage: Stage::Folding, block: 0 };
    match run.step(0, Event::DispatchFailed, at(5)) {
        ChainAction::Failed(error) => assert_eq!(error, earlier),
        other => panic!("{:?}", other),
    }
    assert_eq!(run.failure, Some(earlier));
    assert!(matches!(run.step(1, Event::Start, at(6)), ChainAction::Idle));
    assert!(!run.finished);
}

#[test]
fn later_block_failure_surfaces_once_the_blocks_before_it_are_done() {
    let mut run = two_blocks_mapping();
    let later = ProveError { kind: ErrorKind::DispatchError, stage: Stage::MappingTxProofs, block: 1 };
    run.step(1, Event::DispatchFailed, at(3));
    assert!(matches!(
        run.step(1, Event::TxProved { index: 0, proof: vec![1] }, at(4)),
        ChainAction::Block { index: 1, action: Action::Idle }
    ));
    run.step(0, Event::TxProved { index: 0, proof: vec![1] }, at(4));
    assert!(matches!(
        run.step(0, Event::Folded(AggregatableProof::Agg(vec![1])), at(5)),
        ChainAction::Block { index: 0, action: Action::Finalize { prev: None, .. } }
    ));
    assert_eq!(run.failure, None);
    let proof = GeneratedBlockProof { b_height: 10, intern: vec![3] };
    match run.step(0, Event::Finalized(proof), at(6)) {
        ChainAction::Failed(error) => assert_eq!(error, later),
        other => panic!("{:?}", other),
    }
    assert_eq!(run.failure, Some(later));
    assert_eq!(run.done, 1);
    assert!(!run.finished);
    assert!(matches!(run.step(0, Event::Start, at(7)), ChainAction::Idle));
}

#[test]
fn failure_of_first_unfinished_block_ends_the_run_at_once() {
    let mut run = two_blocks_mapping();
    match run.step(0, Event::DispatchFailed, at(3)) {
        ChainAction::Failed(error) => assert_eq!(
            error,
            ProveError { kind: ErrorKind::DispatchError, stage: Stage::MappingTxProofs, block: 0 }
        ),
        other => panic!("{:?}", other),
    }
    assert!(matches!(run.step(1, Event::DispatchFailed, at(4)), ChainAction::Idle));
    assert_eq!(run.blocks[1].stage, Stage::MappingTxProofs);
}
