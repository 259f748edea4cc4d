//! The sets of stages a node syncs with.
use crate::stages::bodies::BodyStage;
use crate::stages::checkpoint::StageId;
use crate::stages::headers::{HeaderStage, HeaderSyncMode};
use crate::stages::merkle::MerkleStage;
use crate::stages::set::{fresh_entries, ids_of, StageEntry, StageSet, StageSetBuilder};
use crate::stages::stage::Stage;
use crate::stages::total_difficulty::TotalDifficultyStage;
use vstd::prelude::*;

verus! {

/// A configured sync stage: its kind and the settings the pipeline's
/// structure decides on.
#[derive(Clone, Copy, Debug, PartialEq, Eq, Structural)]
pub enum SyncStage {
    /// Downloads headers.
    Headers(HeaderStage),
    /// Computes the total difficulty of each header.
    TotalDifficulty(TotalDifficultyStage),
    /// Downloads block bodies.
    Bodies(BodyStage),
    /// Recovers the senders of transactions.
    SenderRecovery,
    /// Executes blocks.
    Execution,
    /// Hashes accounts.
    AccountHashing,
    /// Hashes storage.
    StorageHashing,
    /// A part of the merkle stage.
    Merkle(MerkleStage),
    /// Maps transaction hashes to numbers.
    TransactionLookup,
    /// Indexes storage history.
    IndexStorageHistory,
    /// Indexes account history.
    IndexAccountHistory,
    /// Marks the end of the pipeline.
    Finish,
}

impl Stage for SyncStage {
    open spec fn spec_id(&self) -> StageId {
        match *self {
            SyncStage::Headers(_) => StageId::Headers,
            SyncStage::TotalDifficulty(_) => StageId::TotalDifficulty,
            SyncStage::Bodies(_) => StageId::Bodies,
            SyncStage::SenderRecovery => StageId::SenderRecovery,
            SyncStage::Execution => StageId::Execution,
            SyncStage::AccountHashing => StageId::AccountHashing,
            SyncStage::StorageHashing => StageId::StorageHashing,
            SyncStage::Merkle(m) => m.spec_id(),
            SyncStage::TransactionLookup => StageId::TransactionLookup,
            SyncStage::IndexStorageHistory => StageId::IndexStorageHistory,
            SyncStage::IndexAccountHistory => StageId::IndexAccountHistory,
            SyncStage::Finish => StageId::Finish,
        }
    }

    fn id(&self) -> (r: StageId) {
        match self {
            SyncStage::Headers(_) => StageId::Headers,
            SyncStage::TotalDifficulty(_) => StageId::TotalDifficulty,
            SyncStage::Bodies(_) => StageId::Bodies,
            SyncStage::SenderRecovery => StageId::SenderRecovery,
            SyncStage::Execution => StageId::Execution,
            SyncStage::AccountHashing => StageId::AccountHashing,
            SyncStage::StorageHashing => StageId::StorageHashing,
            SyncStage::Merkle(m) => m.id(),
            SyncStage::TransactionLookup => StageId::TransactionLookup,
            SyncStage::IndexStorageHistory => StageId::IndexStorageHistory,
            SyncStage::IndexAccountHistory => StageId::IndexAccountHistory,
            SyncStage::Finish => StageId::Finish,
        }
    }
}

/// The identifiers of the given stages, in order.
pub open spec fn stage_ids(stages: Seq<SyncStage>) -> Seq<StageId> {
    stages.map_values(|x: SyncStage| x.spec_id())
}

/// A builder holding the given stages, each once and enabled, in order.
fn set_of(stages: Vec<SyncStage>) -> (r: StageSetBuilder<SyncStage>)
    requires
        stage_ids(stages@).no_duplicates(),
    ensures
        r.wf(),
        r.entries@ == fresh_entries(stages@),
{
    let b: StageSetBuilder<SyncStage> = StageSetBuilder::new();
    let ghost all = stages@;
    proof {
        assert(ids_of(b.entries@) + all.map_values(|x: SyncStage| x.spec_id()) =~= stage_ids(all));
        StageSetBuilder::<SyncStage>::lemma_added_all_fresh(b.entries@, all);
        assert(b.entries@ + fresh_entries(all) =~= fresh_entries(all));
    }
    b.add_all(stages)
}

impl StageSetBuilder<SyncStage> {
    /// Adds the given stages at the end, in order.
    fn add_all(self, stages: Vec<SyncStage>) -> (r: StageSetBuilder<SyncStage>)
        requires
            self.wf(),
        ensures
            r.wf(),
            r.entries@ == Self::added_all(self.entries@, stages@),
    {
        let ghost start = self.entries@;
        let ghost all = stages@;
        let mut this = self;
        let mut rest = stages;
        let mut k: usize = 0;
        let n = rest.len();
        while rest.len() > 0
            invariant
                this.wf(),
                k + rest@.len() == n == all.len(),
                forall|i: int| 0 <= i < rest@.len() ==> #[trigger] rest@[i] == all[k + i],
                this.entries@ == Self::added_all(start, all.subrange(0, k as int)),
            decreases rest.len(),
        {
            let stage = rest.remove(0);
            proof {
                assert(stage == all[k as int]);
                assert(all.subrange(0, k + 1).drop_last() =~= all.subrange(0, k as int));
            }
            this = this.add_stage(stage);
            k += 1;
        }
        proof {
            assert(all.subrange(0, k as int) =~= all);
        }
        this
    }
}

/// The stages that hash the state and compute the state root: the unwind
/// part of the merkle stage, account hashing, storage hashing, and the
/// execution part of the merkle stage.
#[derive(Clone, Copy, Debug, Default)]
pub struct HashingStages;

impl HashingStages {
    /// The stages of this set.
    pub open spec fn stages() -> Seq<SyncStage> {
        seq![
            SyncStage::Merkle(MerkleStage::Unwind),
            SyncStage::AccountHashing,
            SyncStage::StorageHashing,
            SyncStage::Merkle(MerkleStage::Execution { clean_threshold: 50_000 }),
        ]
    }

    /// Configures the stages in the set.
    pub fn stage_set(self) -> (r: StageSetBuilder<SyncStage>)
        ensures
            r.wf(),
            r.entries@ == fresh_entries(Self::stages()),
    {
        let v = vec![
            SyncStage::Merkle(MerkleStage::default_unwind()),
            SyncStage::AccountHashing,
            SyncStage::StorageHashing,
            SyncStage::Merkle(MerkleStage::default_execution()),
        ];
        proof {
            assert(v@ =~= Self::stages());
            assert(stage_ids(v@) =~= seq![StageId::MerkleUnwind, StageId::AccountHashing, StageId::StorageHashing, StageId::MerkleExecute]);
        }
        set_of(v)
    }
}

impl StageSet<SyncStage> for HashingStages {
    open spec fn stage_seq(&self) -> Seq<SyncStage> {
        Self::stages()
    }

    fn builder(self) -> (r: StageSetBuilder<SyncStage>) {
        let r = self.stage_set();
        proof { lemma_built_fresh(Self::stages()); }
        r
    }
}

/// What a builder of fresh entries yields: the stages themselves.
proof fn lemma_built_fresh(stages: Seq<SyncStage>)
    ensures
        fresh_entries(stages).filter(|e: StageEntry<SyncStage>| e.enabled).map_values(|e: StageEntry<SyncStage>| e.stage) == stages,
    decreases stages.len(),
{
    let f = fresh_entries(stages);
    if stages.len() > 0 {
        lemma_built_fresh(stages.drop_last());
        assert(fresh_entries(stages.drop_last()) =~= f.drop_last());
        f.drop_last().lemma_filter_push(f.last(), |e: StageEntry<SyncStage>| e.enabled);
        assert(f.drop_last().push(f.last()) =~= f);
        assert(stages.drop_last().push(stages.last()) =~= stages);
    } else {
        assert(f.filter(|e: StageEntry<SyncStage>| e.enabled) =~= Seq::<StageEntry<SyncStage>>::empty());
    }
}

/// The stages that index history: transaction lookup, storage history and
/// account history.
#[derive(Clone, Copy, Debug, Default)]
pub struct HistoryIndexingStages;

impl HistoryIndexingStages {
    /// The stages of this set.
    pub open spec fn stages() -> Seq<SyncStage> {
        seq![SyncStage::TransactionLookup, SyncStage::IndexStorageHistory, SyncStage::IndexAccountHistory]
    }

    /// Configures the stages in the set.
    pub fn stage_set(self) -> (r: StageSetBuilder<SyncStage>)
        ensures
            r.wf(),
            r.entries@ == fresh_entries(Self::stages()),
    {
        let v = vec![SyncStage::TransactionLookup, SyncStage::IndexStorageHistory, SyncStage::IndexAccountHistory];
        proof {
            assert(v@ =~= Self::stages());
            assert(stage_ids(v@) =~= seq![StageId::TransactionLookup, StageId::IndexStorageHistory, StageId::IndexAccountHistory]);
        }
        set_of(v)
    }
}

impl StageSet<SyncStage> for HistoryIndexingStages {
    open spec fn stage_seq(&self) -> Seq<SyncStage> {
        Self::stages()
    }

    fn builder(self) -> (r: StageSetBuilder<SyncStage>) {
        let r = self.stage_set();
        proof { lemma_built_fresh(Self::stages()); }
        r
    }
}

/// The stages that execute blocks: sender recovery and execution.
#[derive(Clone, Copy, Debug, Default)]
pub struct ExecutionStages;

impl ExecutionStages {
    /// Creates the set.
    pub fn new() -> (r: ExecutionStages) {
        ExecutionStages
    }

    /// The stages of this set.
    pub open spec fn stages() -> Seq<SyncStage> {
        seq![SyncStage::SenderRecovery, SyncStage::Execution]
    }

    /// Configures the stages in the set.
    pub fn stage_set(self) -> (r: StageSetBuilder<SyncStage>)
        ensures
            r.wf(),
            r.entries@ == fresh_entries(Self::stages()),
    {
        let v = vec![SyncStage::SenderRecovery, SyncStage::Execution];
        proof {
            assert(v@ =~= Self::stages());
            assert(stage_ids(v@) =~= seq![StageId::SenderRecovery, StageId::Execution]);
        }
        set_of(v)
    }
}

impl StageSet<SyncStage> for ExecutionStages {
    open spec fn stage_seq(&self) -> Seq<SyncStage> {
        Self::stages()
    }

    fn builder(self) -> (r: StageSetBuilder<SyncStage>) {
        let r = self.stage_set();
        proof { lemma_built_fresh(Self::stages()); }
        r
    }
}

/// The stages that need the network: headers, total difficulty and bodies.
#[derive(Clone, Copy, Debug, PartialEq, Eq, Structural)]
pub struct OnlineStages {
    /// How the headers stage learns what to sync to.
    pub header_mode: HeaderSyncMode,
}

/// The online stages with the given headers and bodies stages.
pub open spec fn online_stages(headers: HeaderStage, bodies: BodyStage) -> Seq<SyncStage> {
    seq![SyncStage::Headers(headers), SyncStage::TotalDifficulty(TotalDifficultyStage { commit_threshold: 100_000 }), SyncStage::Bodies(bodies)]
}

impl OnlineStages {
    /// Creates the set with the given header sync mode.
    pub fn new(header_mode: HeaderSyncMode) -> (r: OnlineStages)
        ensures
            r.header_mode == header_mode,
    {
        OnlineStages { header_mode }
    }

    /// The stages of this set.
    pub open spec fn stages(&self) -> Seq<SyncStage> {
        online_stages(HeaderStage { mode: self.header_mode }, BodyStage)
    }

    /// The online stages with the given headers stage.
    pub fn builder_with_headers(headers: HeaderStage) -> (r: StageSetBuilder<SyncStage>)
        ensures
            r.wf(),
            r.entries@ == fresh_entries(online_stages(headers, BodyStage)),
    {
        let v = vec![SyncStage::Headers(headers), SyncStage::TotalDifficulty(TotalDifficultyStage::new()), SyncStage::Bodies(BodyStage)];
        proof {
            assert(v@ =~= online_stages(headers, BodyStage));
            assert(stage_ids(v@) =~= seq![StageId::Headers, StageId::TotalDifficulty, StageId::Bodies]);
        }
        set_of(v)
    }

    /// The online stages with the given bodies stage and a headers stage
    /// with the given mode.
    pub fn builder_with_bodies(bodies: BodyStage, mode: HeaderSyncMode) -> (r: StageSetBuilder<SyncStage>)
        ensures
            r.wf(),
            r.entries@ == fresh_entries(online_stages(HeaderStage { mode }, bodies)),
    {
        let v = vec![SyncStage::Headers(HeaderStage::new(mode)), SyncStage::TotalDifficulty(TotalDifficultyStage::new()), SyncStage::Bodies(bodies)];
        proof {
            assert(v@ =~= online_stages(HeaderStage { mode }, bodies));
            assert(stage_ids(v@) =~= seq![StageId::Headers, StageId::TotalDifficulty, StageId::Bodies]);
        }
        set_of(v)
    }

    /// Configures the stages in the set.
    pub fn stage_set(self) -> (r: StageSetBuilder<SyncStage>)
        ensures
            r.wf(),
            r.entries@ == fresh_entries(self.stages()),
    {
        Self::builder_with_headers(HeaderStage::new(self.header_mode))
    }
}

impl StageSet<SyncStage> for OnlineStages {
    open spec fn stage_seq(&self) -> Seq<SyncStage> {
        self.stages()
    }

    fn builder(self) -> (r: StageSetBuilder<SyncStage>) {
        let r = self.stage_set();
        proof { lemma_built_fresh(self.stages()); }
        r
    }
}

/// The stages that run without the network: execution, hashing and
/// history indexing.
#[derive(Clone, Copy, Debug, Default)]
pub struct OfflineStages;

impl OfflineStages {
    /// Creates the set.
    pub fn new() -> (r: OfflineStages) {
        OfflineStages
    }

    /// The stages of this set.
    pub open spec fn stages() -> Seq<SyncStage> {
        ExecutionStages::stages() + HashingStages::stages() + HistoryIndexingStages::stages()
    }

    /// Configures the stages in the set: the execution stages, then the
    /// hashing stages, then the history indexing stages.
    pub fn stage_set(self) -> (r: StageSetBuilder<SyncStage>)
        ensures
            r.wf(),
            r.entries@ == fresh_entries(Self::stages()),
    {
        let b = ExecutionStages::new().stage_set();
        let ghost e = ExecutionStages::stages();
        let ghost h = HashingStages::stages();
        let ghost x = HistoryIndexingStages::stages();
        proof {
            assert(ids_of(b.entries@) + h.map_values(|s: SyncStage| s.spec_id()) =~= seq![StageId::SenderRecovery,
                StageId::Execution, StageId::MerkleUnwind, StageId::AccountHashing, StageId::StorageHashing,
                StageId::MerkleExecute]);
            StageSetBuilder::<SyncStage>::lemma_added_all_fresh(b.entries@, h);
        }
        let b = b.add_set(HashingStages);
        proof {
            assert(b.entries@ =~= fresh_entries(e + h));
            assert(ids_of(b.entries@) + x.map_values(|s: SyncStage| s.spec_id()) =~= seq![StageId::SenderRecovery,
                StageId::Execution, StageId::MerkleUnwind, StageId::AccountHashing, StageId::StorageHashing,
                StageId::MerkleExecute, StageId::TransactionLookup, StageId::IndexStorageHistory,
                StageId::IndexAccountHistory]);
            StageSetBuilder::<SyncStage>::lemma_added_all_fresh(b.entries@, x);
        }
        let b = b.add_set(HistoryIndexingStages);
        proof {
            assert(b.entries@ =~= fresh_entries(Self::stages()));
        }
        b
    }
}

impl StageSet<SyncStage> for OfflineStages {
    open spec fn stage_seq(&self) -> Seq<SyncStage> {
        Self::stages()
    }

    fn builder(self) -> (r: StageSetBuilder<SyncStage>) {
        let r = self.stage_set();
        proof { lemma_built_fresh(Self::stages()); }
        r
    }
}

/// All stages a node syncs with: the online stages, the offline stages,
/// and the finish stage.
#[derive(Clone, Copy, Debug, PartialEq, Eq, Structural)]
pub struct DefaultStages {
    /// The online part.
    pub online: OnlineStages,
}

impl DefaultStages {
    /// Creates the set with the given header sync mode.
    pub fn new(header_mode: HeaderSyncMode) -> (r: DefaultStages)
        ensures
            r.online.header_mode == header_mode,
    {
        DefaultStages { online: OnlineStages::new(header_mode) }
    }

    /// The stages of this set.
    pub open spec fn stages(&self) -> Seq<SyncStage> {
        self.online.stages() + OfflineStages::stages() + seq![SyncStage::Finish]
    }

    /// Appends the offline stages and the finish stage to the given set.
    pub fn add_offline_stages(default_offline: StageSetBuilder<SyncStage>) -> (r: StageSetBuilder<SyncStage>)
        requires
            default_offline.wf(),
        ensures
            r.wf(),
            r.entries@ == StageSetBuilder::<SyncStage>::upserted(
                StageSetBuilder::<SyncStage>::added_all(default_offline.entries@, OfflineStages::stages()),
                SyncStage::Finish,
                StageSetBuilder::<SyncStage>::added_all(default_offline.entries@, OfflineStages::stages()).len() as int,
            ),
    {
        default_offline.add_set(OfflineStages::new()).add_stage(SyncStage::Finish)
    }

    /// Configures the stages in the set.
    pub fn stage_set(self) -> (r: StageSetBuilder<SyncStage>)
        ensures
            r.wf(),
            r.entries@ == fresh_entries(self.stages()),
    {
        let online = self.online.stage_set();
        let ghost on = self.online.stages();
        let ghost off = OfflineStages::stages();
        proof {
            assert(ids_of(online.entries@) + off.map_values(|s: SyncStage| s.spec_id()) =~= seq![StageId::Headers,
                StageId::TotalDifficulty, StageId::Bodies, StageId::SenderRecovery, StageId::Execution,
                StageId::MerkleUnwind, StageId::AccountHashing, StageId::StorageHashing, StageId::MerkleExecute,
                StageId::TransactionLookup, StageId::IndexStorageHistory, StageId::IndexAccountHistory]);
            StageSetBuilder::<SyncStage>::lemma_added_all_fresh(online.entries@, off);
            let mid = online.entries@ + fresh_entries(off);
            assert(mid =~= fresh_entries(on + off));
            assert(ids_of(mid) + seq![SyncStage::Finish].map_values(|s: SyncStage| s.spec_id()) =~= seq![StageId::Headers,
                StageId::TotalDifficulty, StageId::Bodies, StageId::SenderRecovery, StageId::Execution,
                StageId::MerkleUnwind, StageId::AccountHashing, StageId::StorageHashing, StageId::MerkleExecute,
                StageId::TransactionLookup, StageId::IndexStorageHistory, StageId::IndexAccountHistory,
                StageId::Finish]);
            StageSetBuilder::<SyncStage>::lemma_added_all_fresh(mid, seq![SyncStage::Finish]);
            assert(seq![SyncStage::Finish].drop_last() =~= Seq::<SyncStage>::empty());
            assert(StageSetBuilder::<SyncStage>::added_all(mid, Seq::<SyncStage>::empty()) == mid);
            assert(mid + fresh_entries(seq![SyncStage::Finish]) =~= fresh_entries(self.stages()));
        }
        Self::add_offline_stages(online)
    }
}

impl StageSet<SyncStage> for DefaultStages {
    open spec fn stage_seq(&self) -> Seq<SyncStage> {
        self.stages()
    }

    fn builder(self) -> (r: StageSetBuilder<SyncStage>) {
        let r = self.stage_set();
        proof { lemma_built_fresh(self.stages()); }
        r
    }
}

} // verus!
