use reth_pool_stages::primitives::{SealedHeader, H256, U256};
use reth_pool_stages::stages::bodies::{BodyStage, BodySummary};
use reth_pool_stages::stages::checkpoint::{EntitiesCheckpoint, StageCheckpoint, StageId, StageUnitCheckpoint};
use reth_pool_stages::stages::ctrl::ControlFlow;
use reth_pool_stages::stages::event::PipelineEvent;
use reth_pool_stages::stages::builder::PipelineBuilder;
use reth_pool_stages::stages::headers::{BlockHashOrNumber, HeaderStage, HeaderSyncMode, SyncGap, SyncTarget};
use reth_pool_stages::stages::merkle::{MerkleExecPlan, MerkleStage, MerkleUnwindPlan};
use reth_pool_stages::stages::pipeline::{run_should_stop, Action, Pipeline, PipelineError, ProviderError, Request, StageError, StepInput};
use reth_pool_stages::stages::progress::PipelineProgress;
use reth_pool_stages::stages::set::StageSetBuilder;
use reth_pool_stages::stages::sets::{DefaultStages, ExecutionStages, HashingStages, OfflineStages, OnlineStages, SyncStage};
use reth_pool_stages::stages::stage::{ExecInput, ExecOutput, Stage, UnwindInput, UnwindOutput};
use reth_pool_stages::stages::total_difficulty::{TotalDifficultyPlan, TotalDifficultyStage};
use reth_pool_stages::storage::blocks::StoredBlockBodyIndices;
use std::collections::{HashMap, VecDeque};

#[test]
fn record_progress_calculates_outliers() {
    let mut progress = PipelineProgress::default();

    progress.update(10);
    assert_eq!(progress.minimum_progress, Some(10));
    assert_eq!(progress.maximum_progress, Some(10));

    progress.update(20);
    assert_eq!(progress.minimum_progress, Some(10));
    assert_eq!(progress.maximum_progress, Some(20));

    progress.update(1);
    assert_eq!(progress.minimum_progress, Some(1));
    assert_eq!(progress.maximum_progress, Some(20));
}

#[test]
fn progress_ctrl_flow() {
    let mut progress = PipelineProgress::default();

    assert_eq!(progress.next_ctrl(), ControlFlow::NoProgress { stage_progress: None });

    progress.update(1);
    assert_eq!(progress.next_ctrl(), ControlFlow::Continue { progress: 1 });
}

/// Scripted results of one stage, and the checkpoints the stages saved.
struct Harness {
    execs: Vec<VecDeque<Result<ExecOutput, StageError>>>,
    unwinds: Vec<VecDeque<Result<UnwindOutput, StageError>>>,
    saved: HashMap<StageId, StageCheckpoint>,
    events: Vec<PipelineEvent>,
}

impl Harness {
    fn new(n: usize) -> Harness {
        Harness {
            execs: vec![VecDeque::new(); n],
            unwinds: vec![VecDeque::new(); n],
            saved: HashMap::new(),
            events: Vec::new(),
        }
    }

    fn drive(&mut self, p: &mut Pipeline, first: Action) -> Result<Option<ControlFlow>, PipelineError> {
        let mut a = first;
        loop {
            self.events.extend(a.events.iter().cloned());
            if let Some((id, cp)) = a.save {
                self.saved.insert(id, cp);
            }
            let input = match a.request {
                Request::ReadCheckpoint(id) => StepInput::Checkpoint(self.saved.get(&id).copied()),
                Request::Execute { stage_index, .. } => {
                    StepInput::Executed(self.execs[stage_index].pop_front().unwrap())
                }
                Request::Unwind { stage_index, .. } => {
                    StepInput::Unwound(self.unwinds[stage_index].pop_front().unwrap())
                }
                Request::Finish(r) => return r,
            };
            assert!(p.accepts_input(&input));
            a = p.step(input);
        }
    }

    /// Runs passes until the pipeline reaches its maximum block.
    fn run(&mut self, p: &mut Pipeline) -> Result<(), PipelineError> {
        loop {
            let a = p.run_loop();
            let next = self.drive(p, a)?.unwrap();
            if run_should_stop(&next, p.minimum_progress(), p.max_block) {
                return Ok(());
            }
        }
    }

    fn unwind(&mut self, p: &mut Pipeline, to: u64, bad_block: Option<u64>) -> Result<(), PipelineError> {
        let a = p.unwind(to, bad_block);
        self.drive(p, a).map(|_| ())
    }
}

fn exec_done(n: u64) -> Result<ExecOutput, StageError> {
    Ok(ExecOutput { checkpoint: StageCheckpoint::new(n), done: true })
}

fn unwound(n: u64) -> Result<UnwindOutput, StageError> {
    Ok(UnwindOutput { checkpoint: StageCheckpoint::new(n) })
}

fn running(pos: usize, total: usize, id: StageId, checkpoint: Option<StageCheckpoint>) -> PipelineEvent {
    PipelineEvent::Running { pipeline_position: pos, pipeline_total: total, stage_id: id, checkpoint }
}

fn ran(pos: usize, total: usize, id: StageId, n: u64) -> PipelineEvent {
    PipelineEvent::Ran {
        pipeline_position: pos,
        pipeline_total: total,
        stage_id: id,
        result: ExecOutput { checkpoint: StageCheckpoint::new(n), done: true },
    }
}

fn unwinding(id: StageId, from: u64, to: u64, bad_block: Option<u64>) -> PipelineEvent {
    PipelineEvent::Unwinding {
        stage_id: id,
        input: UnwindInput { checkpoint: StageCheckpoint::new(from), unwind_to: to, bad_block },
    }
}

fn unwound_event(id: StageId, n: u64) -> PipelineEvent {
    PipelineEvent::Unwound { stage_id: id, result: UnwindOutput { checkpoint: StageCheckpoint::new(n) } }
}

fn header(number: u64) -> SealedHeader {
    SealedHeader {
        number,
        hash: H256(0, number as u128 + 1000),
        parent_hash: H256(0, number as u128 + 999),
        state_root: H256(7, 7),
        difficulty: U256::from_u64(1),
    }
}

const A: StageId = StageId::Other(1);
const B: StageId = StageId::Other(2);
const C: StageId = StageId::Other(3);

#[test]
fn run_pipeline() {
    let mut p = Pipeline::new(vec![A, B], Some(10));
    let mut h = Harness::new(2);
    h.execs[0].push_back(exec_done(20));
    h.execs[1].push_back(exec_done(10));
    h.run(&mut p).unwrap();
    assert_eq!(
        h.events,
        vec![running(1, 2, A, None), ran(1, 2, A, 20), running(2, 2, B, None), ran(2, 2, B, 10)]
    );
}

#[test]
fn unwind_pipeline() {
    let mut p = Pipeline::new(vec![A, B, C], Some(10));
    let mut h = Harness::new(3);
    h.execs[0].push_back(exec_done(100));
    h.execs[1].push_back(exec_done(10));
    h.execs[2].push_back(exec_done(20));
    for k in 0..3 {
        h.unwinds[k].push_back(unwound(1));
    }
    h.run(&mut p).expect("Could not run pipeline");
    h.unwind(&mut p, 1, None).expect("Could not unwind pipeline");
    assert_eq!(
        h.events,
        vec![
            running(1, 3, A, None),
            ran(1, 3, A, 100),
            running(2, 3, B, None),
            ran(2, 3, B, 10),
            running(3, 3, C, None),
            ran(3, 3, C, 20),
            unwinding(C, 20, 1, None),
            unwound_event(C, 1),
            unwinding(B, 10, 1, None),
            unwound_event(B, 1),
            unwinding(A, 100, 1, None),
            unwound_event(A, 1),
        ]
    );
}

#[test]
fn unwind_pipeline_with_intermediate_progress() {
    let mut p = Pipeline::new(vec![A, B], Some(10));
    let mut h = Harness::new(2);
    h.execs[0].push_back(exec_done(100));
    h.unwinds[0].push_back(unwound(50));
    h.execs[1].push_back(exec_done(10));
    h.run(&mut p).expect("Could not run pipeline");
    h.unwind(&mut p, 50, None).expect("Could not unwind pipeline");
    assert_eq!(
        h.events,
        vec![
            running(1, 2, A, None),
            ran(1, 2, A, 100),
            running(2, 2, B, None),
            ran(2, 2, B, 10),
            PipelineEvent::Skipped { stage_id: B },
            unwinding(A, 100, 50, None),
            unwound_event(A, 50),
        ]
    );
}

#[test]
fn run_pipeline_with_unwind() {
    let mut p = Pipeline::new(vec![A, B], Some(10));
    let mut h = Harness::new(2);
    h.execs[0].push_back(exec_done(10));
    h.unwinds[0].push_back(unwound(0));
    h.execs[0].push_back(exec_done(10));
    h.execs[1].push_back(Err(StageError::Validation { block: header(5) }));
    h.unwinds[1].push_back(unwound(0));
    h.execs[1].push_back(exec_done(10));
    h.run(&mut p).expect("Could not run pipeline");
    assert_eq!(
        h.events,
        vec![
            running(1, 2, A, None),
            ran(1, 2, A, 10),
            running(2, 2, B, None),
            PipelineEvent::Error { stage_id: B },
            unwinding(A, 10, 0, Some(5)),
            unwound_event(A, 0),
            running(1, 2, A, Some(StageCheckpoint::new(0))),
            ran(1, 2, A, 10),
            running(2, 2, B, None),
            ran(2, 2, B, 10),
        ]
    );
}

#[test]
fn pipeline_error_handling() {
    let non_fatal = StageId::Other(4);
    let mut p = Pipeline::new(vec![non_fatal], Some(10));
    let mut h = Harness::new(1);
    h.execs[0].push_back(Err(StageError::Recoverable));
    h.execs[0].push_back(exec_done(10));
    assert_eq!(h.run(&mut p), Ok(()));

    let fatal = StageId::Other(5);
    let mut p = Pipeline::new(vec![fatal], None);
    let mut h = Harness::new(1);
    h.execs[0].push_back(Err(StageError::DatabaseIntegrity(ProviderError::BlockBodyIndicesNotFound(5))));
    assert_eq!(
        h.run(&mut p),
        Err(PipelineError::Stage(StageError::DatabaseIntegrity(ProviderError::BlockBodyIndicesNotFound(5))))
    );
}

#[test]
fn pipeline_skips_stage_at_max_block() {
    let mut p = Pipeline::new(vec![A, B], Some(10));
    let mut h = Harness::new(2);
    h.saved.insert(A, StageCheckpoint::new(10));
    h.execs[1].push_back(exec_done(10));
    h.run(&mut p).unwrap();
    assert_eq!(
        h.events,
        vec![PipelineEvent::Skipped { stage_id: A }, running(2, 2, B, None), ran(2, 2, B, 10)]
    );
    assert_eq!(p.minimum_progress(), Some(10));
}

#[test]
fn pipeline_without_stages_finishes_at_once() {
    let mut p = Pipeline::new(vec![], None);
    let a = p.run_loop();
    assert!(matches!(
        a.request,
        Request::Finish(Ok(Some(ControlFlow::NoProgress { stage_progress: None })))
    ));
}

#[test]
fn pipeline_unwind_failure_is_reported() {
    let mut p = Pipeline::new(vec![A], None);
    let mut h = Harness::new(1);
    h.saved.insert(A, StageCheckpoint::new(5));
    h.unwinds[0].push_back(Err(StageError::Fatal));
    assert_eq!(h.unwind(&mut p, 1, None), Err(PipelineError::UnwindFailed(A, StageError::Fatal)));
    assert_eq!(h.events, vec![unwinding(A, 5, 1, None), PipelineEvent::Error { stage_id: A }]);
}

#[test]
fn run_should_stop_needs_progress_at_target() {
    let next = ControlFlow::Continue { progress: 10 };
    assert!(run_should_stop(&next, Some(10), Some(10)));
    assert!(!run_should_stop(&next, Some(9), Some(10)));
    assert!(!run_should_stop(&next, Some(10), None));
    let unwind = ControlFlow::Unwind { target: 1, bad_block: header(2) };
    assert!(!run_should_stop(&unwind, Some(10), Some(10)));
}

fn ids(stages: &[SyncStage]) -> Vec<StageId> {
    stages.iter().map(|s| stage_id(s)).collect()
}

fn stage_id(s: &SyncStage) -> StageId {
    s.id()
}

#[test]
fn default_stages_order() {
    let stages = DefaultStages::new(HeaderSyncMode::Continuous).stage_set().build();
    assert_eq!(
        ids(&stages),
        vec![
            StageId::Headers,
            StageId::TotalDifficulty,
            StageId::Bodies,
            StageId::SenderRecovery,
            StageId::Execution,
            StageId::MerkleUnwind,
            StageId::AccountHashing,
            StageId::StorageHashing,
            StageId::MerkleExecute,
            StageId::TransactionLookup,
            StageId::IndexStorageHistory,
            StageId::IndexAccountHistory,
            StageId::Finish,
        ]
    );
}

#[test]
fn stage_set_builder_moves_and_disables() {
    let b: StageSetBuilder<SyncStage> = OnlineStages::new(HeaderSyncMode::Continuous).stage_set();
    let b = b.add_stage(SyncStage::Execution);
    // re-adding a stage moves it to the end
    let b = b.add_stage(SyncStage::Headers(HeaderStage::new(HeaderSyncMode::Continuous)));
    let b = b.add_before(SyncStage::SenderRecovery, StageId::Execution);
    let b = b.add_after(SyncStage::Finish, StageId::Bodies);
    let b = b.disable(StageId::TotalDifficulty);
    let b = b.disable_if(StageId::Bodies, false);
    let stages = b.build();
    assert_eq!(
        ids(&stages),
        vec![
            StageId::Bodies,
            StageId::Finish,
            StageId::SenderRecovery,
            StageId::Execution,
            StageId::Headers,
        ]
    );
}

#[test]
fn stage_set_builder_enable_and_set() {
    let b = OnlineStages::new(HeaderSyncMode::Continuous).stage_set().disable(StageId::Bodies).enable(StageId::Bodies);
    let b = b.set(SyncStage::TotalDifficulty(TotalDifficultyStage::new().with_commit_threshold(5)));
    let stages = b.build();
    assert_eq!(
        stages,
        vec![
            SyncStage::Headers(HeaderStage::new(HeaderSyncMode::Continuous)),
            SyncStage::TotalDifficulty(TotalDifficultyStage::new().with_commit_threshold(5)),
            SyncStage::Bodies(BodyStage),
        ]
    );
}

#[test]
fn stage_set_builder_add_set() {
    let b: StageSetBuilder<SyncStage> = StageSetBuilder::new();
    let b = b.add_stage(SyncStage::Bodies(BodyStage)).add_stage(SyncStage::Finish);
    let stages = b.add_set(OnlineStages::new(HeaderSyncMode::Tip)).build();
    assert_eq!(
        ids(&stages),
        vec![StageId::Finish, StageId::Headers, StageId::TotalDifficulty, StageId::Bodies]
    );
}

#[test]
fn block_indices() {
    let first_tx_num = 10;
    let tx_count = 6;
    let block_indices = StoredBlockBodyIndices { first_tx_num, tx_count };

    assert_eq!(block_indices.first_tx_num(), first_tx_num);
    assert_eq!(block_indices.last_tx_num(), first_tx_num + tx_count - 1);
    assert_eq!(block_indices.next_tx_num(), first_tx_num + tx_count);
    assert_eq!(block_indices.tx_count(), tx_count);
    assert_eq!(block_indices.tx_num_range(), first_tx_num..first_tx_num + tx_count);
}

#[test]
fn empty_block_indices() {
    let indices = StoredBlockBodyIndices { first_tx_num: 3, tx_count: 0 };
    assert!(indices.is_empty());
    assert_eq!(indices.last_tx_num(), 2);
    assert_eq!(indices.tx_num_range(), 3..3);
}

fn input(checkpoint: Option<u64>, target: Option<u64>) -> ExecInput {
    ExecInput { target, checkpoint: checkpoint.map(StageCheckpoint::new) }
}

#[test]
fn exec_input_ranges() {
    let i = input(Some(10), Some(100));
    assert_eq!(i.next_block(), 11);
    assert!(!i.target_reached());
    assert_eq!(i.next_block_range(), 11..=100);
    assert_eq!(i.next_block_range_with_threshold(20), (11..=30, false));
    assert_eq!(i.next_block_range_with_threshold(1000), (11..=100, true));
    let fresh = input(None, None);
    assert!(fresh.is_first_range());
    assert!(fresh.target_reached());
}

#[test]
fn unwind_input_ranges() {
    let u = UnwindInput { checkpoint: StageCheckpoint::new(100), unwind_to: 10, bad_block: None };
    assert_eq!(u.unwind_block_range(), 11..=100);
    assert_eq!(u.unwind_block_range_with_threshold(30), (70..=100, 69, false));
    assert_eq!(u.unwind_block_range_with_threshold(500), (11..=100, 10, true));
}

#[test]
fn merkle_execution_plans() {
    let stage = MerkleStage::new_execution(100);
    assert_eq!(
        stage.execution_plan(&input(Some(0), Some(50)), None),
        MerkleExecPlan::Rebuild { from_block: 1, to_block: 50, resume: false, entities: None }
    );
    assert_eq!(
        stage.execution_plan(&input(Some(10), Some(50)), None),
        MerkleExecPlan::Incremental { from_block: 11, to_block: 50 }
    );
    assert_eq!(
        stage.execution_plan(&input(Some(10), Some(500)), Some(500)),
        MerkleExecPlan::Rebuild { from_block: 11, to_block: 500, resume: true, entities: None }
    );
    assert_eq!(
        stage.execution_plan(&input(Some(50), Some(50)), None),
        MerkleExecPlan::BlockRoot { to_block: 50, entities: EntitiesCheckpoint { processed: 0, total: 0 } }
    );
    assert_eq!(
        MerkleStage::default_unwind().execution_plan(&input(Some(3), Some(50)), None),
        MerkleExecPlan::Done(ExecOutput { checkpoint: StageCheckpoint::new(50), done: true })
    );
}

#[test]
fn merkle_unwind_plans_and_root_check() {
    let fallback = EntitiesCheckpoint { processed: 4, total: 9 };
    let u = UnwindInput { checkpoint: StageCheckpoint::new(20), unwind_to: 5, bad_block: None };
    assert_eq!(
        MerkleStage::default_unwind().unwind_plan(&u, fallback),
        MerkleUnwindPlan::Incremental {
            from_block: 6,
            to_block: 20,
            output: UnwindOutput { checkpoint: StageCheckpoint::new(5) }
        }
    );
    let to_genesis = UnwindInput { checkpoint: StageCheckpoint::new(20), unwind_to: 0, bad_block: None };
    assert_eq!(
        MerkleStage::default_unwind().unwind_plan(&to_genesis, fallback),
        MerkleUnwindPlan::Clear(UnwindOutput {
            checkpoint: StageCheckpoint {
                block_number: 0,
                stage_checkpoint: Some(StageUnitCheckpoint::Entities(EntitiesCheckpoint { processed: 0, total: 9 })),
            }
        })
    );
    assert_eq!(
        MerkleStage::default_execution().unwind_plan(&u, fallback),
        MerkleUnwindPlan::Done(UnwindOutput { checkpoint: StageCheckpoint::new(5) })
    );
    let h = header(8);
    assert!(MerkleStage::default_execution().validate_state_root(H256(7, 7), h).is_ok());
    let err = MerkleStage::default_execution().validate_state_root(H256(1, 2), h).unwrap_err();
    assert_eq!(err.got, H256(1, 2));
    assert_eq!(err.expected, H256(7, 7));
}

#[test]
fn header_targets() {
    assert_eq!(HeaderStage::gap_target(10, None), Ok(None));
    assert_eq!(HeaderStage::gap_target(10, Some(header(20))), Ok(Some(SyncTarget::Gap(header(20)))));
    assert_eq!(HeaderStage::gap_target(10, Some(header(11))), Err(StageError::StageCheckpoint(10)));
    assert_eq!(HeaderStage::continuous_target(41), SyncTarget::TipNum(42));
    let h = header(30);
    assert_eq!(HeaderStage::tip_block_number(BlockHashOrNumber::Hash(h.hash), Some(h)), Some(30));
    assert_eq!(HeaderStage::tip_block_number(BlockHashOrNumber::Hash(H256(0, 1)), Some(h)), None);
    assert_eq!(HeaderStage::tip_block_number(BlockHashOrNumber::Number(12), None), Some(12));
    assert_eq!(HeaderStage::target_block_number(Some(10), Some(20)), Some(20));
    assert_eq!(HeaderStage::target_block_number(Some(30), Some(20)), Some(30));
    assert_eq!(HeaderStage::target_block_number(None, Some(20)), None);
    assert_eq!(HeaderStage::latest_written(&vec![0, 7, 6]), Some(7));
    assert_eq!(HeaderStage::latest_written(&vec![0]), None);
}

#[test]
fn bodies_plan_writes() {
    let bodies = vec![
        BodySummary { block_number: 5, full: true, tx_count: 2, has_ommers: true, has_withdrawals: false },
        BodySummary { block_number: 6, full: false, tx_count: 9, has_ommers: true, has_withdrawals: true },
        BodySummary { block_number: 7, full: true, tx_count: 3, has_ommers: false, has_withdrawals: true },
    ];
    let w = BodyStage::plan_writes(100, &bodies, 5, 7);
    assert_eq!(
        w.indices,
        vec![
            (5, StoredBlockBodyIndices { first_tx_num: 100, tx_count: 2 }),
            (6, StoredBlockBodyIndices { first_tx_num: 102, tx_count: 0 }),
            (7, StoredBlockBodyIndices { first_tx_num: 102, tx_count: 3 }),
        ]
    );
    assert_eq!(w.tx_blocks, vec![(101, 5), (104, 7)]);
    assert_eq!(w.ommers, vec![5]);
    assert_eq!(w.withdrawals, vec![7]);
    assert_eq!(w.next_tx_num, 105);
    assert_eq!(w.output, ExecOutput { checkpoint: StageCheckpoint::new(7), done: true });
    assert_eq!(BodyStage::first_new_tx_num(None), 0);
    assert_eq!(BodyStage::first_new_tx_num(Some(9)), 10);
    assert_eq!(
        BodyStage::nothing_to_do(&input(Some(20), Some(20))),
        Some(ExecOutput { checkpoint: StageCheckpoint::new(20), done: true })
    );
    assert_eq!(BodyStage::nothing_to_do(&input(Some(19), Some(20))), None);
}

#[test]
fn total_difficulty_plan_and_totals() {
    let stage = TotalDifficultyStage::new().with_commit_threshold(50);
    assert_eq!(
        stage.execution_plan(&input(Some(1000), Some(1100))),
        TotalDifficultyPlan::Write { start_block: 1001, end_block: 1050, is_final_range: false }
    );
    assert_eq!(
        stage.execution_plan(&input(Some(1050), Some(1100))),
        TotalDifficultyPlan::Write { start_block: 1051, end_block: 1100, is_final_range: true }
    );
    assert_eq!(
        stage.execution_plan(&input(Some(1100), Some(1100))),
        TotalDifficultyPlan::Done(ExecOutput { checkpoint: StageCheckpoint::new(1100), done: true })
    );
    let totals = TotalDifficultyStage::totals(U256::from_u64(5), &vec![U256::from_u64(1), U256::from_u64(2)]);
    assert_eq!(totals, vec![U256::from_u64(6), U256::from_u64(8)]);
    let wrapped = TotalDifficultyStage::totals(U256::max_value(), &vec![U256::from_u64(2)]);
    assert_eq!(wrapped, vec![U256::from_u64(1)]);
}

#[test]
fn online_stages_with_given_parts() {
    let tip = HeaderStage::new(HeaderSyncMode::Tip);
    let stages = OnlineStages::builder_with_headers(tip).build();
    assert_eq!(stages[0], SyncStage::Headers(tip));
    assert_eq!(stages[1], SyncStage::TotalDifficulty(TotalDifficultyStage::new()));
    assert_eq!(stages[2], SyncStage::Bodies(BodyStage));
    let stages = OnlineStages::builder_with_bodies(BodyStage, HeaderSyncMode::Tip).build();
    assert_eq!(stages[0], SyncStage::Headers(tip));
    assert_eq!(stages.len(), 3);
}

#[test]
fn offline_stages_follow_online_stages() {
    let online = OnlineStages::new(HeaderSyncMode::Continuous).stage_set();
    let all = DefaultStages::add_offline_stages(online).build();
    assert_eq!(all, DefaultStages::new(HeaderSyncMode::Continuous).stage_set().build());
    let offline = OfflineStages::new().stage_set().build();
    let mut expected = ExecutionStages::new().stage_set().build();
    expected.extend(HashingStages.stage_set().build());
    expected.push(SyncStage::TransactionLookup);
    expected.push(SyncStage::IndexStorageHistory);
    expected.push(SyncStage::IndexAccountHistory);
    assert_eq!(offline, expected);
}

#[test]
fn pipeline_builder_collects_stages() {
    let b: PipelineBuilder<SyncStage> = Pipeline::builder();
    let b = b.add_stage(SyncStage::Finish).add_stages(ExecutionStages::new()).with_max_block(42);
    let (pipeline, stages) = b.build();
    assert_eq!(stages, vec![SyncStage::Finish, SyncStage::SenderRecovery, SyncStage::Execution]);
    assert_eq!(pipeline.stages, vec![StageId::Finish, StageId::SenderRecovery, StageId::Execution]);
    assert_eq!(pipeline.max_block, Some(42));
    assert_eq!(pipeline.minimum_progress(), None);
}

#[test]
fn header_stage_done_on_closed_gap() {
    let head = header(10);
    let closed = SyncGap { local_head: head, target: SyncTarget::TipNum(10) };
    let cp = StageCheckpoint::new(10);
    assert_eq!(
        HeaderStage::closed_gap_output(cp, &closed),
        Some(ExecOutput { checkpoint: cp, done: true })
    );
    let open = SyncGap { local_head: head, target: SyncTarget::TipNum(20) };
    assert_eq!(HeaderStage::closed_gap_output(cp, &open), None);
    let by_hash = SyncGap { local_head: head, target: SyncTarget::Tip(head.hash) };
    assert!(HeaderStage::closed_gap_output(cp, &by_hash).is_some());
}

#[test]
fn plans_at_the_last_block() {
    let at_end = input(Some(u64::MAX), Some(u64::MAX));
    assert_eq!(
        TotalDifficultyStage::new().execution_plan(&at_end),
        TotalDifficultyPlan::Done(ExecOutput { checkpoint: StageCheckpoint::new(u64::MAX), done: true })
    );
    assert_eq!(
        MerkleStage::default_unwind().execution_plan(&at_end, None),
        MerkleExecPlan::Done(ExecOutput { checkpoint: StageCheckpoint::new(u64::MAX), done: true })
    );
}

#[test]
fn disable_then_enable_restores_the_set() {
    let all = DefaultStages::new(HeaderSyncMode::Continuous).stage_set().build();
    let b = DefaultStages::new(HeaderSyncMode::Continuous).stage_set().disable(StageId::Execution);
    let without = b.build();
    let expected: Vec<SyncStage> = all.iter().copied().filter(|s| s.id() != StageId::Execution).collect();
    assert_eq!(without, expected);
    let b = DefaultStages::new(HeaderSyncMode::Continuous)
        .stage_set()
        .disable(StageId::Execution)
        .add_before(SyncStage::Finish, StageId::Execution)
        .enable(StageId::Execution);
    let ids_after = ids(&b.build());
    let pos_finish = ids_after.iter().position(|i| *i == StageId::Finish).unwrap();
    assert_eq!(ids_after[pos_finish + 1], StageId::Execution);
    let restored = DefaultStages::new(HeaderSyncMode::Continuous)
        .stage_set()
        .disable(StageId::Execution)
        .enable(StageId::Execution)
        .build();
    assert_eq!(restored, all);
}

#[test]
fn stage_errors_fatal_or_retried() {
    assert!(StageError::Fatal.is_fatal());
    assert!(StageError::ChannelClosed.is_fatal());
    assert!(StageError::StageCheckpoint(3).is_fatal());
    assert!(StageError::DatabaseIntegrity(ProviderError::HeaderNotFound(BlockHashOrNumber::Number(4))).is_fatal());
    assert!(!StageError::Recoverable.is_fatal());
    assert!(!StageError::DetachedHead { local_head: header(1), header: header(3) }.is_fatal());
    assert!(!StageError::Validation { block: header(2) }.is_fatal());

    // a detached head is retried
    let mut p = Pipeline::new(vec![A], Some(10));
    let mut h = Harness::new(1);
    h.execs[0].push_back(Err(StageError::DetachedHead { local_head: header(1), header: header(3) }));
    h.execs[0].push_back(exec_done(10));
    assert_eq!(h.run(&mut p), Ok(()));
    assert_eq!(
        h.events,
        vec![
            running(1, 1, A, None),
            PipelineEvent::Error { stage_id: A },
            running(1, 1, A, None),
            ran(1, 1, A, 10),
        ]
    );
}
