//! Where the store files what it is given, and that it can get at those places.

use crate::base32hex::base32hex;
use crate::block::block_cell;
use crate::column_family::{family_name, ColumnFamily};
use crate::connection::test_cell;
use crate::decimal::{all_digits, decimal_value, law_decimal_is_the_text};
use crate::fault::{law_write_whatever_fails, run_write_with, Faults};
use crate::model::{Codec, Database};
use crate::operation::Cell;
use crate::store::{
    epoch_cell, ledger_cell, snapshot_cell, tx_cell, IndexerStore, OpenPlan,
};
use crate::text::joined;
use crate::transaction_key::{law_key_is_written_in_parts, KeyParts};
use vstd::prelude::*;
use vstd::utf8::encode_utf8;

verus! {

/// Blocks and ledgers lie under the bytes of their state hash, each in the column family of their
/// kind; the snapshot and the test value lie in the default one.
pub proof fn law_hashes_are_filed_by_kind(state_hash: Seq<char>)
    ensures
        block_cell(state_hash).0 == ColumnFamily::Blocks,
        block_cell(state_hash).1 == encode_utf8(state_hash),
        ledger_cell(state_hash).0 == ColumnFamily::Ledgers,
        ledger_cell(state_hash).1 == encode_utf8(state_hash),
        snapshot_cell().0 == ColumnFamily::Default,
        snapshot_cell().1 == encode_utf8("STATE"@),
        test_cell().0 == ColumnFamily::Default,
        test_cell().1 == encode_utf8("test"@),
{
}

/// The staking ledger of an epoch lies among the staking ledgers, under the word and the digits
/// of the epoch.
pub proof fn law_epochs_are_filed_by_number(epoch: u32, digits: Seq<u8>)
    requires
        digits.len() > 0,
        all_digits(digits),
        digits.len() > 1 ==> digits[0] != 48,
        decimal_value(digits) == epoch,
    ensures
        epoch_cell(epoch).0 == ColumnFamily::StakingLedgers,
        epoch_cell(epoch).1 == encode_utf8("epoch:"@) + digits,
{
    law_decimal_is_the_text(digits);
}

/// A transaction lies among the transactions, whatever its height, time and hash, under its time,
/// height and hash.
pub proof fn law_transactions_are_filed_by_key(stamp: Seq<u8>, height: Seq<u8>, key: KeyParts)
    requires
        stamp.len() > 0,
        all_digits(stamp),
        stamp.len() > 1 ==> stamp[0] != 48,
        decimal_value(stamp) == key.timestamp,
        height.len() == 12,
        all_digits(height),
        decimal_value(height) == key.height,
    ensures
        tx_cell(key).0 == ColumnFamily::Tx,
        tx_cell(key).1 == joined(seq![base32hex(stamp), height, encode_utf8(key.hash)], 45),
{
    law_key_is_written_in_parts(stamp, height, key);
}

/// Every kind is found by iterating over the column family of its name.
pub proof fn law_kinds_are_found_by_name(state_hash: Seq<char>, epoch: u32, key: KeyParts)
    ensures
        family_name(block_cell(state_hash).0) == "blocks"@,
        family_name(ledger_cell(state_hash).0) == "ledgers"@,
        family_name(epoch_cell(epoch).0) == "staking-ledgers"@,
        family_name(tx_cell(key).0) == "tx"@,
        family_name(snapshot_cell().0) == "default"@,
        family_name(test_cell().0) == "default"@,
{
}

/// `bytes` were entered in a cell, in place of what it held, and no other cell has changed.
pub open spec fn entered(after: Database, before: Database, cell: Cell, bytes: Seq<u8>) -> bool {
    &&& after.contains_key(cell) && after[cell] == bytes
    &&& forall|other: Cell| other != cell ==> {
        &&& #[trigger] after.contains_key(other) <==> before.contains_key(other)
        &&& after[other] == before[other]
    }
}

/// After a value of any kind was stored, the column family of that kind has its entry, and no
/// other entry of any column family has changed.
pub proof fn law_storing_enters_one_entry<V, E>(
    db: Database,
    codec: Codec<V, E>,
    faults: Faults<E>,
    state_hash: Seq<char>,
    epoch: u32,
    key: KeyParts,
    value: V,
    bytes: Seq<u8>,
)
    requires
        (codec.encode)(value) == Ok::<Seq<u8>, E>(bytes),
        forall|cell: Cell| #[trigger] (faults.put)(cell) is None,
    ensures
        entered(
            run_write_with(db, codec, faults, block_cell(state_hash), value).0,
            db,
            (ColumnFamily::Blocks, encode_utf8(state_hash)),
            bytes,
        ),
        entered(
            run_write_with(db, codec, faults, ledger_cell(state_hash), value).0,
            db,
            (ColumnFamily::Ledgers, encode_utf8(state_hash)),
            bytes,
        ),
        entered(
            run_write_with(db, codec, faults, epoch_cell(epoch), value).0,
            db,
            (ColumnFamily::StakingLedgers, epoch_cell(epoch).1),
            bytes,
        ),
        entered(
            run_write_with(db, codec, faults, tx_cell(key), value).0,
            db,
            (ColumnFamily::Tx, tx_cell(key).1),
            bytes,
        ),
        entered(
            run_write_with(db, codec, faults, snapshot_cell(), value).0,
            db,
            (ColumnFamily::Default, encode_utf8("STATE"@)),
            bytes,
        ),
{
    law_write_whatever_fails(db, codec, faults, block_cell(state_hash), value);
    law_write_whatever_fails(db, codec, faults, ledger_cell(state_hash), value);
    law_write_whatever_fails(db, codec, faults, epoch_cell(epoch), value);
    law_write_whatever_fails(db, codec, faults, tx_cell(key), value);
    law_write_whatever_fails(db, codec, faults, snapshot_cell(), value);
}

/// A store can use the default column family and those that were opened, and no other.
pub proof fn law_opened_families_can_be_used<P>(store: IndexerStore<P>, family: ColumnFamily)
    ensures
        store.is_open(ColumnFamily::Default),
        store.families@.contains(family) ==> store.is_open(family),
        store.is_open(family) && !store.families@.contains(family) ==> family
            == ColumnFamily::Default,
{
}

/// An operation stays in column families that can be used, given only the one that it asks for.
/// Blocks and ledgers can be had from a store that was opened as a secondary, and all kinds from
/// one that was not; the snapshot and the test value from any.
pub proof fn law_operations_stay_in_open_families<P>(
    store: IndexerStore<P>,
    state_hash: Seq<char>,
    epoch: u32,
    key: KeyParts,
)
    ensures
        store.is_open(ColumnFamily::Blocks) ==> store.is_open(block_cell(state_hash).0),
        store.is_open(ColumnFamily::Ledgers) ==> store.is_open(ledger_cell(state_hash).0),
        store.is_open(ColumnFamily::StakingLedgers) ==> store.is_open(epoch_cell(epoch).0),
        store.is_open(ColumnFamily::Tx) ==> store.is_open(tx_cell(key).0),
        store.is_open(snapshot_cell().0),
        store.is_open(test_cell().0),
        store.families@ == seq![ColumnFamily::Blocks, ColumnFamily::Ledgers] ==> store.is_open(
            block_cell(state_hash).0,
        ) && store.is_open(ledger_cell(state_hash).0),
        store.families@ == seq![
            ColumnFamily::Blocks,
            ColumnFamily::Ledgers,
            ColumnFamily::Canonicity,
            ColumnFamily::Tx,
            ColumnFamily::StakingLedgers,
        ] ==> store.is_open(block_cell(state_hash).0) && store.is_open(ledger_cell(state_hash).0)
            && store.is_open(epoch_cell(epoch).0) && store.is_open(tx_cell(key).0),
{
    let some = seq![ColumnFamily::Blocks, ColumnFamily::Ledgers];
    assert(some[0] == ColumnFamily::Blocks && some[1] == ColumnFamily::Ledgers);
    let all = seq![
        ColumnFamily::Blocks,
        ColumnFamily::Ledgers,
        ColumnFamily::Canonicity,
        ColumnFamily::Tx,
        ColumnFamily::StakingLedgers,
    ];
    assert(all[0] == ColumnFamily::Blocks && all[1] == ColumnFamily::Ledgers && all[3]
        == ColumnFamily::Tx && all[4] == ColumnFamily::StakingLedgers);
}

/// A store that was opened as a secondary calls the directory of the secondary its own; any other
/// that of the database.
pub proof fn law_store_has_its_own_directory<P>(plan: OpenPlan<P>)
    ensures
        plan.secondary matches Some(secondary) ==> plan.db_path() == secondary,
        plan.secondary is None ==> plan.db_path() == plan.path,
{
}

} // verus!
