//! The tables of the database.
use vstd::prelude::*;

verus! {

/// The kinds of tables in the database.
#[derive(Clone, Copy, Debug, PartialEq, Eq, Structural)]
pub enum TableType {
    /// A key-value table.
    Table,
    /// A table whose keys can hold several sorted values.
    DupSort,
}

/// Number of tables that should be present inside the database.
pub const NUM_TABLES: usize = 25;

/// The names of the default tables, in order.
pub open spec fn table_names() -> Seq<Seq<char>> {
    seq![
        "CanonicalHeaders"@, "HeaderTD"@, "HeaderNumbers"@, "Headers"@, "BlockBodyIndices"@,
        "BlockOmmers"@, "BlockWithdrawals"@, "TransactionBlock"@, "Transactions"@, "TxHashNumber"@,
        "Receipts"@, "PlainAccountState"@, "PlainStorageState"@, "Bytecodes"@, "AccountHistory"@,
        "StorageHistory"@, "AccountChangeSet"@, "StorageChangeSet"@, "HashedAccount"@, "HashedStorage"@,
        "AccountsTrie"@, "StoragesTrie"@, "TxSenders"@, "SyncStage"@, "SyncStageProgress"@,
    ]
}

/// The positions of the tables that keep several values per key:
/// plain storage state, the two change sets, hashed storage and storage
/// tries.
pub open spec fn is_dupsort_position(i: int) -> bool {
    i == 12 || i == 16 || i == 17 || i == 19 || i == 21
}

/// The default tables that should be present inside the database, with
/// their kinds.
pub fn tables() -> (r: Vec<(TableType, &'static str)>)
    ensures
        r@.len() == NUM_TABLES,
        forall|i: int| 0 <= i < NUM_TABLES ==> (#[trigger] r@[i]).0 == if is_dupsort_position(i) { TableType::DupSort } else { TableType::Table },
        forall|i: int| 0 <= i < NUM_TABLES ==> (#[trigger] r@[i]).1@ == table_names()[i],
{
    let r = vec![
        (TableType::Table, "CanonicalHeaders"),
        (TableType::Table, "HeaderTD"),
        (TableType::Table, "HeaderNumbers"),
        (TableType::Table, "Headers"),
        (TableType::Table, "BlockBodyIndices"),
        (TableType::Table, "BlockOmmers"),
        (TableType::Table, "BlockWithdrawals"),
        (TableType::Table, "TransactionBlock"),
        (TableType::Table, "Transactions"),
        (TableType::Table, "TxHashNumber"),
        (TableType::Table, "Receipts"),
        (TableType::Table, "PlainAccountState"),
        (TableType::DupSort, "PlainStorageState"),
        (TableType::Table, "Bytecodes"),
        (TableType::Table, "AccountHistory"),
        (TableType::Table, "StorageHistory"),
        (TableType::DupSort, "AccountChangeSet"),
        (TableType::DupSort, "StorageChangeSet"),
        (TableType::Table, "HashedAccount"),
        (TableType::DupSort, "HashedStorage"),
        (TableType::Table, "AccountsTrie"),
        (TableType::DupSort, "StoragesTrie"),
        (TableType::Table, "TxSenders"),
        (TableType::Table, "SyncStage"),
        (TableType::Table, "SyncStageProgress"),
    ];
    proof {
        assert forall|i: int| 0 <= i < NUM_TABLES implies (#[trigger] r@[i]).0 == if is_dupsort_position(i) { TableType::DupSort } else { TableType::Table } by {
        }
        assert forall|i: int| 0 <= i < NUM_TABLES implies (#[trigger] r@[i]).1@ == table_names()[i] by {
        }
    }
    r
}

} // verus!
