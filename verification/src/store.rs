//! The indexer store: what it opens, and where and how it keeps blocks, ledgers, transactions
//! and snapshots.

use crate::backup::{
    archive_name, create_backup_steps, from_backup_steps, workspace_name, BackupPlan, PlaceView,
    Places, RestorePlan, ScriptView,
};
use crate::base32hex::base32hex;
use crate::block::{
    block_cell, block_slot, BlockHash, GetCanonicity, PrecomputedBlock, SetCanonicity,
    SetCanonicityView,
};
use crate::column_family::{family_name, law_family_names_differ, ColumnFamily};
use crate::connection::{test_cell, TestConn};
use crate::decimal::{decimal, decimal_digits, padded};
use crate::operation::{Action, ActionView, Cell, Read, ReadView, Slot, Write, WriteView};
use crate::transaction_key::{key_bytes, KeyParts, TransactionKey};
use vstd::prelude::*;
use vstd::string::StrSliceExecFns;
use vstd::utf8::encode_utf8;

verus! {

/// Where the ledger of a state hash is stored.
pub open spec fn ledger_cell(state_hash: Seq<char>) -> Cell {
    (ColumnFamily::Ledgers, encode_utf8(state_hash))
}

/// Where the staking ledger of an epoch is stored.
pub open spec fn epoch_cell(epoch: u32) -> Cell {
    (ColumnFamily::StakingLedgers, encode_utf8("epoch:"@) + decimal(epoch as nat))
}

/// Where the state snapshot is stored.
pub open spec fn snapshot_cell() -> Cell {
    (ColumnFamily::Default, encode_utf8("STATE"@))
}

/// Where a transaction is stored.
pub open spec fn tx_cell(key: KeyParts) -> Cell {
    (ColumnFamily::Tx, key_bytes(key))
}

/// The column families that a store of its own opens.
pub open spec fn primary_families() -> Seq<ColumnFamily> {
    seq![
        ColumnFamily::Blocks,
        ColumnFamily::Ledgers,
        ColumnFamily::Canonicity,
        ColumnFamily::Tx,
        ColumnFamily::StakingLedgers,
    ]
}

/// The column families that a store opened as a secondary opens.
pub open spec fn secondary_families() -> Seq<ColumnFamily> {
    seq![ColumnFamily::Blocks, ColumnFamily::Ledgers]
}

fn ledger_slot(state_hash: &BlockHash) -> (slot: Slot)
    ensures
        slot@ == ledger_cell(state_hash.0@),
        slot.family == ColumnFamily::Ledgers,
        slot.key@ == encode_utf8(state_hash.0@),
{
    Slot { family: ColumnFamily::Ledgers, key: state_hash.0.as_str().as_bytes_vec() }
}

fn epoch_slot(epoch: u32) -> (slot: Slot)
    ensures
        slot@ == epoch_cell(epoch),
        slot.family == ColumnFamily::StakingLedgers,
        slot.key@ == encode_utf8("epoch:"@) + decimal(epoch as nat),
{
    let mut key: Vec<u8> = "epoch:".as_bytes_vec();
    let digits: Vec<u8> = decimal_digits(epoch as u64);
    key.extend_from_slice(digits.as_slice());
    assert(key@ =~= encode_utf8("epoch:"@) + decimal(epoch as nat));
    Slot { family: ColumnFamily::StakingLedgers, key }
}

fn snapshot_slot() -> (slot: Slot)
    ensures
        slot@ == snapshot_cell(),
        slot.family == ColumnFamily::Default,
        slot.key@ == encode_utf8("STATE"@),
{
    Slot { family: ColumnFamily::Default, key: "STATE".as_bytes_vec() }
}

/// How a database is to be opened.
#[derive(Debug)]
pub struct OpenPlan<P> {
    /// The directory of the database.
    pub path: P,
    /// The directory of a secondary, where the database is opened as one.
    pub secondary: Option<P>,
    /// The column families to open besides the default one.
    pub families: Vec<ColumnFamily>,
    /// The limit on write buffers of each column family, where there is one.
    pub max_write_buffer_number: Option<i32>,
    pub create_missing_column_families: bool,
    pub create_if_missing: bool,
}

impl<P> OpenPlan<P> {
    /// The directory that the opened store calls its own.
    pub open spec fn db_path(self) -> P {
        match self.secondary {
            Some(secondary) => secondary,
            None => self.path,
        }
    }

    /// Takes note of whether the database could be opened.
    pub fn opened<E>(self, outcome: Result<(), E>) -> (result: Result<IndexerStore<P>, E>)
        ensures
            match outcome {
                Ok(_) => result matches Ok(store) && store.db_path == self.db_path()
                    && store.families@ == self.families@,
                Err(error) => result == Err::<IndexerStore<P>, E>(error),
            },
            result matches Ok(store) ==> match self.secondary {
                Some(secondary) => store.db_path == secondary,
                None => store.db_path == self.path,
            },
    {
        match outcome {
            Ok(_) => {
                let db_path = match self.secondary {
                    Some(secondary) => secondary,
                    None => self.path,
                };
                Ok(IndexerStore { db_path, families: self.families })
            },
            Err(error) => Err(error),
        }
    }
}

/// A store over an open database.
#[derive(Debug)]
pub struct IndexerStore<P> {
    /// The directory of the store.
    pub db_path: P,
    /// The column families that were opened besides the default one.
    pub families: Vec<ColumnFamily>,
}

impl<P> IndexerStore<P> {
    /// The column family can be used.
    pub open spec fn is_open(self, family: ColumnFamily) -> bool {
        family == ColumnFamily::Default || self.families@.contains(family)
    }

    /// How to open a store as a secondary of another.
    pub fn new_read_only(path: P, secondary: P) -> (plan: OpenPlan<P>)
        ensures
            plan.path == path,
            plan.secondary == Some(secondary),
            plan.families@ == secondary_families(),
            plan.families@ == seq![ColumnFamily::Blocks, ColumnFamily::Ledgers],
            plan.max_write_buffer_number is None,
            !plan.create_missing_column_families,
            !plan.create_if_missing,
    {
        let families: Vec<ColumnFamily> = vec![ColumnFamily::Blocks, ColumnFamily::Ledgers];
        assert(families@ =~= secondary_families());
        OpenPlan {
            path,
            secondary: Some(secondary),
            families,
            max_write_buffer_number: None,
            create_missing_column_families: false,
            create_if_missing: false,
        }
    }

    /// How to open a store, creating what is missing.
    pub fn new(path: P) -> (plan: OpenPlan<P>)
        ensures
            plan.path == path,
            plan.secondary is None,
            plan.families@ == primary_families(),
            plan.families@ == seq![
                ColumnFamily::Blocks,
                ColumnFamily::Ledgers,
                ColumnFamily::Canonicity,
                ColumnFamily::Tx,
                ColumnFamily::StakingLedgers,
            ],
            plan.max_write_buffer_number == Some(16i32),
            plan.create_missing_column_families,
            plan.create_if_missing,
    {
        let families: Vec<ColumnFamily> = vec![
            ColumnFamily::Blocks,
            ColumnFamily::Ledgers,
            ColumnFamily::Canonicity,
            ColumnFamily::Tx,
            ColumnFamily::StakingLedgers,
        ];
        assert(families@ =~= primary_families());
        OpenPlan {
            path,
            secondary: None,
            families,
            max_write_buffer_number: Some(16),
            create_missing_column_families: true,
            create_if_missing: true,
        }
    }

    /// The directory of the store.
    pub fn db_path(&self) -> (path: &P)
        ensures
            *path == self.db_path,
    {
        &self.db_path
    }

    /// Whether a column family can be used.
    pub fn has(&self, family: ColumnFamily) -> (open: bool)
        ensures
            open == self.is_open(family),
            open == (family == ColumnFamily::Default || self.families@.contains(family)),
    {
        if family == ColumnFamily::Default {
            return true;
        }
        let mut n: usize = 0;
        while n < self.families.len()
            invariant
                n <= self.families@.len(),
                forall|i: int| 0 <= i < n ==> self.families@[i] != family,
            decreases self.families@.len() - n,
        {
            if self.families[n] == family {
                assert(self.families@[n as int] == family);
                return true;
            }
            n += 1;
        }
        false
    }

    /// The open column family of a name, over which to iterate.
    pub fn column_family(&self, cf: &str) -> (family: Option<ColumnFamily>)
        ensures
            match family {
                Some(family) => self.is_open(family) && family_name(family) == cf@,
                None => forall|family: ColumnFamily| #[trigger]
                    self.is_open(family) ==> family_name(family) != cf@,
            },
            family == Some(ColumnFamily::Default) <==> cf@ == "default"@,
            family == Some(ColumnFamily::Blocks) <==> cf@ == "blocks"@ && self.families@.contains(
                ColumnFamily::Blocks,
            ),
            family == Some(ColumnFamily::Ledgers) <==> cf@ == "ledgers"@
                && self.families@.contains(ColumnFamily::Ledgers),
            family == Some(ColumnFamily::Canonicity) <==> cf@ == "canonicity"@
                && self.families@.contains(ColumnFamily::Canonicity),
            family == Some(ColumnFamily::Tx) <==> cf@ == "tx"@ && self.families@.contains(
                ColumnFamily::Tx,
            ),
            family == Some(ColumnFamily::StakingLedgers) <==> cf@ == "staking-ledgers"@
                && self.families@.contains(ColumnFamily::StakingLedgers),
    {
        match ColumnFamily::from_name(cf) {
            Some(family) => {
                if self.has(family) {
                    Some(family)
                } else {
                    proof {
                        assert forall|other: ColumnFamily| #[trigger]
                            self.is_open(other) implies family_name(other) != cf@ by {
                            if family_name(other) == cf@ {
                                law_family_names_differ(other, family);
                            }
                        }
                    }
                    None
                }
            },
            None => None,
        }
    }

    /// Stores a transaction under its height, timestamp and hash.
    pub fn put_tx<V>(&self, height: u32, timestamp: u64, hash: String, tx: V) -> (started: (
        Write,
        Action<V>,
    ))
        requires
            self.is_open(ColumnFamily::Tx),
        ensures
            started.0@ == (WriteView::Encoding {
                cell: tx_cell(KeyParts { timestamp, height, hash: hash@ }),
            }),
            started.1@ == (ActionView::Encode { value: tx }),
            started.0 matches Write::Encoding { slot } && slot.family == ColumnFamily::Tx
                && slot.key@ == base32hex(decimal(timestamp as nat)) + seq![45u8] + padded(
                height as nat,
                12,
            ) + seq![45u8] + encode_utf8(hash@),
            started.1 == (Action::Encode { value: tx }),
    {
        let key: Vec<u8> = TransactionKey::new(height, timestamp, hash).bytes();
        Write::start(Slot { family: ColumnFamily::Tx, key }, tx)
    }

    /// Stores a block under its state hash.
    pub fn add_block<C, R>(&self, block: PrecomputedBlock<C, R>) -> (started: (
        Write,
        Action<PrecomputedBlock<C, R>>,
    ))
        requires
            self.is_open(ColumnFamily::Blocks),
        ensures
            started.0@ == (WriteView::Encoding { cell: block_cell(block.state_hash@) }),
            started.1@ == (ActionView::Encode { value: block }),
            started.0 matches Write::Encoding { slot } && slot.family == ColumnFamily::Blocks
                && slot.key@ == encode_utf8(block.state_hash@),
            started.1 == (Action::Encode { value: block }),
    {
        let slot: Slot = block_slot(block.state_hash.as_str());
        Write::start(slot, block)
    }

    /// Reads the block of a state hash.
    pub fn get_block<C, R>(&self, state_hash: &BlockHash) -> (started: (
        Read,
        Action<PrecomputedBlock<C, R>>,
    ))
        requires
            self.is_open(ColumnFamily::Blocks),
        ensures
            started.0@ == (ReadView::CatchingUp { cell: block_cell(state_hash.0@) }),
            started.1@ == ActionView::<PrecomputedBlock<C, R>>::CatchUp,
            started.0 matches Read::CatchingUp { slot } && slot.family == ColumnFamily::Blocks
                && slot.key@ == encode_utf8(state_hash.0@),
            started.1 == Action::<PrecomputedBlock<C, R>>::CatchUp,
    {
        Read::start_caught_up(block_slot(state_hash.0.as_str()))
    }

    /// Changes the canonicity of the block of a state hash.
    pub fn set_canonicity<C, R>(&self, state_hash: &BlockHash, canonicity: C) -> (started: (
        SetCanonicity<C>,
        Action<PrecomputedBlock<C, R>>,
    ))
        requires
            self.is_open(ColumnFamily::Blocks),
        ensures
            started.0@ == (SetCanonicityView::Reading {
                read: ReadView::CatchingUp { cell: block_cell(state_hash.0@) },
                canonicity,
            }),
            started.1@ == ActionView::<PrecomputedBlock<C, R>>::CatchUp,
            started.0 matches SetCanonicity::Reading {
                read: Read::CatchingUp { slot },
                canonicity: wanted,
            } && slot.family == ColumnFamily::Blocks && slot.key@ == encode_utf8(state_hash.0@)
                && wanted == canonicity,
            started.1 == Action::<PrecomputedBlock<C, R>>::CatchUp,
    {
        SetCanonicity::start(state_hash, canonicity)
    }

    /// Reads the canonicity of the block of a state hash.
    pub fn get_canonicity<C, R>(&self, state_hash: &BlockHash) -> (started: (
        GetCanonicity,
        Action<PrecomputedBlock<C, R>>,
    ))
        requires
            self.is_open(ColumnFamily::Blocks),
        ensures
            started.0@ == (ReadView::CatchingUp { cell: block_cell(state_hash.0@) }),
            started.1@ == ActionView::<PrecomputedBlock<C, R>>::CatchUp,
            started.0.read matches Read::CatchingUp { slot } && slot.family
                == ColumnFamily::Blocks && slot.key@ == encode_utf8(state_hash.0@),
            started.1 == Action::<PrecomputedBlock<C, R>>::CatchUp,
    {
        GetCanonicity::start(state_hash)
    }

    /// Stores a ledger under a state hash.
    pub fn add_ledger<V>(&self, state_hash: &BlockHash, ledger: V) -> (started: (Write, Action<V>))
        requires
            self.is_open(ColumnFamily::Ledgers),
        ensures
            started.0@ == (WriteView::Encoding { cell: ledger_cell(state_hash.0@) }),
            started.1@ == (ActionView::Encode { value: ledger }),
            started.0 matches Write::Encoding { slot } && slot.family == ColumnFamily::Ledgers
                && slot.key@ == encode_utf8(state_hash.0@),
            started.1 == (Action::Encode { value: ledger }),
    {
        Write::start(ledger_slot(state_hash), ledger)
    }

    /// Reads the ledger of a state hash.
    pub fn get_ledger<V>(&self, state_hash: &BlockHash) -> (started: (Read, Action<V>))
        requires
            self.is_open(ColumnFamily::Ledgers),
        ensures
            started.0@ == (ReadView::CatchingUp { cell: ledger_cell(state_hash.0@) }),
            started.1@ == ActionView::<V>::CatchUp,
            started.0 matches Read::CatchingUp { slot } && slot.family == ColumnFamily::Ledgers
                && slot.key@ == encode_utf8(state_hash.0@),
            started.1 == Action::<V>::CatchUp,
    {
        Read::start_caught_up(ledger_slot(state_hash))
    }

    /// Stores the staking ledger of an epoch.
    pub fn add_epoch<V>(&self, epoch: u32, ledger: V) -> (started: (Write, Action<V>))
        requires
            self.is_open(ColumnFamily::StakingLedgers),
        ensures
            started.0@ == (WriteView::Encoding { cell: epoch_cell(epoch) }),
            started.1@ == (ActionView::Encode { value: ledger }),
            started.0 matches Write::Encoding { slot } && slot.family == ColumnFamily::StakingLedgers
                && slot.key@ == encode_utf8("epoch:"@) + decimal(epoch as nat),
            started.1 == (Action::Encode { value: ledger }),
    {
        Write::start(epoch_slot(epoch), ledger)
    }

    /// Reads the staking ledger of an epoch.
    pub fn get_epoch<V>(&self, epoch_number: u32) -> (started: (Read, Action<V>))
        requires
            self.is_open(ColumnFamily::StakingLedgers),
        ensures
            started.0@ == (ReadView::CatchingUp { cell: epoch_cell(epoch_number) }),
            started.1@ == ActionView::<V>::CatchUp,
            started.0 matches Read::CatchingUp { slot } && slot.family == ColumnFamily::StakingLedgers
                && slot.key@ == encode_utf8("epoch:"@) + decimal(epoch_number as nat),
            started.1 == Action::<V>::CatchUp,
    {
        Read::start_caught_up(epoch_slot(epoch_number))
    }

    /// Stores the state snapshot, in place of an earlier one.
    pub fn store_state_snapshot<V>(&self, snapshot: V) -> (started: (Write, Action<V>))
        ensures
            started.0@ == (WriteView::Encoding { cell: snapshot_cell() }),
            started.1@ == (ActionView::Encode { value: snapshot }),
            started.0 matches Write::Encoding { slot } && slot.family == ColumnFamily::Default
                && slot.key@ == encode_utf8("STATE"@),
            started.1 == (Action::Encode { value: snapshot }),
    {
        Write::start(snapshot_slot(), snapshot)
    }

    /// Reads the state snapshot.
    pub fn read_snapshot<V>(&self) -> (started: (Read, Action<V>))
        ensures
            started.0@ == ReadView::Getting,
            started.1@ == (ActionView::<V>::Get { cell: snapshot_cell() }),
            started.0 == Read::Getting,
            started.1 matches Action::Get { slot } && slot.family == ColumnFamily::Default
                && slot.key@ == encode_utf8("STATE"@),
    {
        Read::start(snapshot_slot())
    }

    /// Tests the connection by writing and deleting a value.
    pub fn test_conn<V>(&mut self) -> (started: (TestConn, Action<V>))
        ensures
            *final(self) == *old(self),
            started.0@ == TestConn::Putting,
            started.1@ == (ActionView::<V>::Put {
                cell: test_cell(),
                bytes: encode_utf8("value"@),
            }),
            started.0 == TestConn::Putting,
            started.1 matches Action::Put { slot, bytes } && slot.family == ColumnFamily::Default
                && slot.key@ == encode_utf8("test"@) && bytes@ == encode_utf8("value"@),
    {
        TestConn::start()
    }

    /// How to make a backup of the store.
    pub fn create_backup(&self, backup_name: &str, backup_path: P) -> (plan: BackupPlan<P>)
        ensures
            plan.backup_path == backup_path,
            plan.archive@ == archive_name(backup_name@),
            plan.archive@ == backup_name@ + ".tar.zst"@,
            plan.places(self.db_path) == (Places {
                workspace: PlaceView::Inside { directory: backup_path, name: workspace_name() },
                archive: PlaceView::Inside {
                    directory: backup_path,
                    name: archive_name(backup_name@),
                },
                database: PlaceView::At { path: self.db_path },
            }),
            plan.script@ == (ScriptView { steps: create_backup_steps(), at: 0 }),
    {
        BackupPlan::new(backup_name, backup_path)
    }

    /// How to restore a store from a backup.
    pub fn from_backup(backup_file: P, database_directory: P) -> (plan: RestorePlan<P>)
        ensures
            plan.backup_file == backup_file,
            plan.database_directory == database_directory,
            plan.places() == (Places {
                workspace: PlaceView::Beside { file: backup_file, name: workspace_name() },
                archive: PlaceView::At { path: backup_file },
                database: PlaceView::At { path: database_directory },
            }),
            plan.script@ == (ScriptView { steps: from_backup_steps(), at: 0 }),
    {
        RestorePlan::new(backup_file, database_directory)
    }
}

/// A store of its own opens every column family but the default one, which is always there; one
/// opened as a secondary opens those of blocks and ledgers. None is opened twice.
pub proof fn law_families_are_opened_once(family: ColumnFamily)
    ensures
        primary_families().no_duplicates(),
        primary_families().contains(family) <==> family != ColumnFamily::Default,
        secondary_families().no_duplicates(),
        secondary_families().contains(family) <==> family == ColumnFamily::Blocks || family
            == ColumnFamily::Ledgers,
{
    let all = primary_families();
    assert(all[0] == ColumnFamily::Blocks);
    assert(all[1] == ColumnFamily::Ledgers);
    assert(all[2] == ColumnFamily::Canonicity);
    assert(all[3] == ColumnFamily::Tx);
    assert(all[4] == ColumnFamily::StakingLedgers);
    let some = secondary_families();
    assert(some[0] == ColumnFamily::Blocks);
    assert(some[1] == ColumnFamily::Ledgers);
}

/// A store of its own can use every column family; one opened as a secondary can use only the
/// default one and those of blocks and ledgers.
pub proof fn law_open_families<P>(store: IndexerStore<P>, family: ColumnFamily)
    ensures
        store.families@ == primary_families() ==> store.is_open(family),
        store.families@ == secondary_families() ==> (store.is_open(family) <==> {
            ||| family == ColumnFamily::Default
            ||| family == ColumnFamily::Blocks
            ||| family == ColumnFamily::Ledgers
        }),
{
    let all = primary_families();
    assert(all[0] == ColumnFamily::Blocks);
    assert(all[1] == ColumnFamily::Ledgers);
    assert(all[2] == ColumnFamily::Canonicity);
    assert(all[3] == ColumnFamily::Tx);
    assert(all[4] == ColumnFamily::StakingLedgers);
    let some = secondary_families();
    assert(some[0] == ColumnFamily::Blocks);
    assert(some[1] == ColumnFamily::Ledgers);
}

} // verus!
