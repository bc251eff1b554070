//! A model of the database that operations run against, and what holds of such runs.

use crate::block::{
    block_cell, get_canonicity_step, set_canonicity_awaits, set_canonicity_step, with_canonicity,
    PrecomputedBlock, SetCanonicityView,
};
use crate::column_family::ColumnFamily;
use crate::connection::{test_cell, test_conn_awaits, test_conn_step, TestConn};
use crate::decimal::{decimal, lemma_decimal};
use crate::operation::{
    answers, read_awaits, read_step, write_awaits, write_step, ActionView, Cell, EventView,
    ReadView, StepView, WriteView,
};
use crate::store::{epoch_cell, ledger_cell, snapshot_cell, tx_cell};
use crate::text::lemma_utf8_injective;
use crate::transaction_key::{key_bytes, law_key_injective, KeyParts};
use vstd::prelude::*;
use vstd::utf8::encode_utf8;

verus! {

/// What a database holds.
pub type Database = Map<Cell, Seq<u8>>;

/// How values are serialised and deserialised.
#[verifier::reject_recursive_types(V)]
pub struct Codec<V, E> {
    pub encode: spec_fn(V) -> Result<Seq<u8>, E>,
    pub decode: spec_fn(Seq<u8>) -> Result<V, E>,
}

impl<V, E> Codec<V, E> {
    /// The codec gives back a value that it has serialised.
    pub open spec fn restores(self, value: V) -> bool {
        (self.encode)(value) matches Ok(bytes) && (self.decode)(bytes) == Ok::<V, E>(value)
    }

    /// The codec gives back every value that it can serialise.
    pub open spec fn faithful(self) -> bool {
        forall|value: V| #[trigger]
            (self.encode)(value) is Ok ==> (self.decode)((self.encode)(value)->Ok_0) == Ok::<V, E>(
                value,
            )
    }
}

/// A working database performs an action: what it holds then, and what it answers.
pub open spec fn perform<V, E>(db: Database, codec: Codec<V, E>, action: ActionView<V>) -> (
    Database,
    EventView<V, E>,
) {
    match action {
        ActionView::CatchUp => (db, EventView::CaughtUp(Ok(()))),
        ActionView::Get { cell } => (
            db,
            EventView::Got(
                Ok(
                    if db.contains_key(cell) {
                        Some(db[cell])
                    } else {
                        None
                    },
                ),
            ),
        ),
        ActionView::Put { cell, bytes } => (db.insert(cell, bytes), EventView::Stored(Ok(()))),
        ActionView::Delete { cell } => (db.remove(cell), EventView::Deleted(Ok(()))),
        ActionView::Encode { value } => (db, EventView::Encoded((codec.encode)(value))),
        ActionView::Decode { bytes } => (db, EventView::Decoded((codec.decode)(bytes))),
    }
}

/// An operation's way on from one event, as a function.
pub type Program<O, V, E, R> = spec_fn(O, EventView<V, E>) -> StepView<O, V, R>;

/// Runs an operation against a working database for at most `fuel` actions: what the database
/// holds then, and what the operation returned.
pub open spec fn run<O, V, E, R>(
    program: Program<O, V, E, R>,
    db: Database,
    codec: Codec<V, E>,
    operation: O,
    action: ActionView<V>,
    fuel: nat,
) -> (Database, Option<R>)
    decreases fuel,
{
    if fuel == 0 {
        (db, None)
    } else {
        let (after, event) = perform(db, codec, action);
        match program(operation, event) {
            StepView::Perform { operation, action } => run(
                program,
                after,
                codec,
                operation,
                action,
                (fuel - 1) as nat,
            ),
            StepView::Finish { result } => (after, Some(result)),
        }
    }
}

/// No operation takes more actions than this.
pub open spec fn enough() -> nat {
    6
}

/// Runs a read of a cell, after catching up where that is wanted.
pub open spec fn run_read<V, E>(
    db: Database,
    codec: Codec<V, E>,
    cell: Cell,
    catch_up: bool,
) -> (Database, Option<Result<Option<V>, E>>) {
    let program: Program<ReadView, V, E, Result<Option<V>, E>> = |
        operation: ReadView,
        event: EventView<V, E>,
    | read_step(operation, event);
    if catch_up {
        run(program, db, codec, ReadView::CatchingUp { cell }, ActionView::CatchUp, enough())
    } else {
        run(program, db, codec, ReadView::Getting, ActionView::Get { cell }, enough())
    }
}

/// Runs a write of a value to a cell.
pub open spec fn run_write<V, E>(
    db: Database,
    codec: Codec<V, E>,
    cell: Cell,
    value: V,
) -> (Database, Option<Result<(), E>>) {
    let program: Program<WriteView, V, E, Result<(), E>> = |
        operation: WriteView,
        event: EventView<V, E>,
    | write_step(operation, event);
    run(program, db, codec, WriteView::Encoding { cell }, ActionView::Encode { value }, enough())
}

/// Runs a change of canonicity.
pub open spec fn run_set_canonicity<C, R, E>(
    db: Database,
    codec: Codec<PrecomputedBlock<C, R>, E>,
    state_hash: Seq<char>,
    canonicity: C,
) -> (Database, Option<Result<(), E>>) {
    let program: Program<
        SetCanonicityView<C>,
        PrecomputedBlock<C, R>,
        E,
        Result<(), E>,
    > = |operation: SetCanonicityView<C>, event: EventView<PrecomputedBlock<C, R>, E>|
        set_canonicity_step(operation, event);
    run(
        program,
        db,
        codec,
        SetCanonicityView::Reading {
            read: ReadView::CatchingUp { cell: block_cell(state_hash) },
            canonicity,
        },
        ActionView::CatchUp,
        enough(),
    )
}

/// Runs a read of a block's canonicity.
pub open spec fn run_get_canonicity<C, R, E>(
    db: Database,
    codec: Codec<PrecomputedBlock<C, R>, E>,
    state_hash: Seq<char>,
) -> (Database, Option<Result<Option<C>, E>>) {
    let program: Program<ReadView, PrecomputedBlock<C, R>, E, Result<Option<C>, E>> = |
        operation: ReadView,
        event: EventView<PrecomputedBlock<C, R>, E>,
    | get_canonicity_step(operation, event);
    run(
        program,
        db,
        codec,
        ReadView::CatchingUp { cell: block_cell(state_hash) },
        ActionView::CatchUp,
        enough(),
    )
}

/// Runs a test of the connection.
pub open spec fn run_test_conn<V, E>(db: Database, codec: Codec<V, E>) -> (
    Database,
    Option<Result<(), E>>,
) {
    let program: Program<TestConn, V, E, Result<(), E>> = |
        operation: TestConn,
        event: EventView<V, E>,
    | test_conn_step(operation, event);
    run(
        program,
        db,
        codec,
        TestConn::Putting,
        ActionView::Put { cell: test_cell(), bytes: encode_utf8("value"@) },
        enough(),
    )
}

/// What a cell holds, deserialised; nothing where it is empty.
pub open spec fn held<V, E>(db: Database, codec: Codec<V, E>, cell: Cell) -> Result<Option<V>, E> {
    if db.contains_key(cell) {
        match (codec.decode)(db[cell]) {
            Ok(value) => Ok(Some(value)),
            Err(error) => Err(error),
        }
    } else {
        Ok(None)
    }
}

/// A read returns what the cell holds, and changes nothing.
pub proof fn law_read_returns_what_is_held<V, E>(
    db: Database,
    codec: Codec<V, E>,
    cell: Cell,
    catch_up: bool,
)
    ensures
        run_read(db, codec, cell, catch_up) == (db, Some(held(db, codec, cell))),
{
    reveal_with_fuel(run, 5);
}

/// A write leaves the serialised value in its cell; where the value cannot be serialised, it
/// fails and leaves the database as it was.
pub proof fn law_write_fills_its_cell<V, E>(
    db: Database,
    codec: Codec<V, E>,
    cell: Cell,
    value: V,
)
    ensures
        run_write(db, codec, cell, value) == match (codec.encode)(value) {
            Ok(bytes) => (db.insert(cell, bytes), Some(Ok::<(), E>(()))),
            Err(error) => (db, Some(Err::<(), E>(error))),
        },
{
    reveal_with_fuel(run, 4);
}

/// A read gives back the value that was last written to the same cell.
pub proof fn law_read_after_write<V, E>(
    db: Database,
    codec: Codec<V, E>,
    cell: Cell,
    value: V,
    catch_up: bool,
)
    requires
        codec.restores(value),
    ensures
        run_write(db, codec, cell, value).1 == Some(Ok::<(), E>(())),
        run_read(run_write(db, codec, cell, value).0, codec, cell, catch_up).1 == Some(
            Ok::<Option<V>, E>(Some(value)),
        ),
{
    law_write_fills_its_cell(db, codec, cell, value);
    law_read_returns_what_is_held(
        run_write(db, codec, cell, value).0,
        codec,
        cell,
        catch_up,
    );
}

/// A write does not change what any other cell reads as, whatever its values are.
pub proof fn law_write_leaves_other_cells<V, W, E>(
    db: Database,
    codec: Codec<V, E>,
    cell: Cell,
    value: V,
    other: Cell,
    other_codec: Codec<W, E>,
    catch_up: bool,
)
    requires
        other != cell,
    ensures
        run_read(run_write(db, codec, cell, value).0, other_codec, other, catch_up).1 == run_read(
            db,
            other_codec,
            other,
            catch_up,
        ).1,
{
    law_write_fills_its_cell(db, codec, cell, value);
    law_read_returns_what_is_held(db, other_codec, other, catch_up);
    law_read_returns_what_is_held(
        run_write(db, codec, cell, value).0,
        other_codec,
        other,
        catch_up,
    );
}

/// A test of the connection succeeds, and leaves the database as it was but for the test cell,
/// which is empty.
pub proof fn law_test_conn_cleans_up<V, E>(db: Database, codec: Codec<V, E>)
    ensures
        run_test_conn(db, codec) == (db.remove(test_cell()), Some(Ok::<(), E>(()))),
{
    reveal_with_fuel(run, 4);
    assert(db.insert(test_cell(), encode_utf8("value"@)).remove(test_cell()) =~= db.remove(
        test_cell(),
    ));
}

/// Blocks, ledgers, staking ledgers and transactions have cells of their own: equal cells belong
/// to the same state hash, epoch or key.
pub proof fn law_cells_are_own(
    hash_a: Seq<char>,
    hash_b: Seq<char>,
    epoch_a: u32,
    epoch_b: u32,
    key_a: KeyParts,
    key_b: KeyParts,
)
    ensures
        block_cell(hash_a) == block_cell(hash_b) ==> hash_a == hash_b,
        ledger_cell(hash_a) == ledger_cell(hash_b) ==> hash_a == hash_b,
        epoch_cell(epoch_a) == epoch_cell(epoch_b) ==> epoch_a == epoch_b,
        tx_cell(key_a) == tx_cell(key_b) ==> key_a == key_b,
{
    if encode_utf8(hash_a) == encode_utf8(hash_b) {
        lemma_utf8_injective(hash_a, hash_b);
    }
    if epoch_cell(epoch_a) == epoch_cell(epoch_b) {
        let front = encode_utf8("epoch:"@);
        let a = decimal(epoch_a as nat);
        let b = decimal(epoch_b as nat);
        assert((front + a).skip(front.len() as int) =~= a);
        assert((front + b).skip(front.len() as int) =~= b);
        lemma_decimal(epoch_a as nat);
        lemma_decimal(epoch_b as nat);
    }
    if key_bytes(key_a) == key_bytes(key_b) {
        law_key_injective(key_a, key_b);
    }
}

/// Values of different kinds never share a cell.
pub proof fn law_kinds_do_not_collide(
    block_hash: Seq<char>,
    ledger_hash: Seq<char>,
    epoch: u32,
    key: KeyParts,
)
    ensures
        block_cell(block_hash) != ledger_cell(ledger_hash),
        block_cell(block_hash) != epoch_cell(epoch),
        block_cell(block_hash) != tx_cell(key),
        block_cell(block_hash) != snapshot_cell(),
        block_cell(block_hash) != test_cell(),
        ledger_cell(ledger_hash) != epoch_cell(epoch),
        ledger_cell(ledger_hash) != tx_cell(key),
        ledger_cell(ledger_hash) != snapshot_cell(),
        ledger_cell(ledger_hash) != test_cell(),
        epoch_cell(epoch) != tx_cell(key),
        epoch_cell(epoch) != snapshot_cell(),
        epoch_cell(epoch) != test_cell(),
        tx_cell(key) != snapshot_cell(),
        tx_cell(key) != test_cell(),
        snapshot_cell() != test_cell(),
{
    if encode_utf8("STATE"@) == encode_utf8("test"@) {
        lemma_utf8_injective("STATE"@, "test"@);
        reveal_strlit("STATE");
        reveal_strlit("test");
        assert("STATE"@.len() == 5);
        assert("test"@.len() == 4);
    }
}

/// Every block is stored under its own state hash.
pub open spec fn filed<C, R, E>(db: Database, codec: Codec<PrecomputedBlock<C, R>, E>) -> bool {
    forall|cell: Cell|
        #![trigger db.contains_key(cell)]
        db.contains_key(cell) && cell.0 == ColumnFamily::Blocks ==> match (codec.decode)(db[cell]) {
            Ok(block) => cell == block_cell(block.state_hash@),
            Err(_) => true,
        }
}

/// Where every block is stored under its own state hash, the block that a hash reads as has that
/// hash.
pub proof fn law_filed_block_has_its_hash<C, R, E>(
    db: Database,
    codec: Codec<PrecomputedBlock<C, R>, E>,
    state_hash: Seq<char>,
    block: PrecomputedBlock<C, R>,
)
    requires
        filed(db, codec),
        held(db, codec, block_cell(state_hash)) == Ok::<Option<PrecomputedBlock<C, R>>, E>(
            Some(block),
        ),
    ensures
        block.state_hash@ == state_hash,
{
    assert(db.contains_key(block_cell(state_hash)));
    lemma_utf8_injective(block.state_hash@, state_hash);
}

/// What a change of canonicity does: the block that the hash reads as is stored, changed, under
/// its own state hash; where there is none, nothing changes.
pub proof fn law_set_canonicity_rewrites_block<C, R, E>(
    db: Database,
    codec: Codec<PrecomputedBlock<C, R>, E>,
    state_hash: Seq<char>,
    canonicity: C,
)
    ensures
        run_set_canonicity(db, codec, state_hash, canonicity) == match held(
            db,
            codec,
            block_cell(state_hash),
        ) {
            Ok(Some(block)) => run_write(
                db,
                codec,
                block_cell(block.state_hash@),
                with_canonicity(block, canonicity),
            ),
            Ok(None) => (db, Some(Ok::<(), E>(()))),
            Err(error) => (db, Some(Err::<(), E>(error))),
        },
{
    reveal_with_fuel(run, 7);
}

/// What reading a canonicity returns: that of the block that the hash reads as, if there is one.
pub proof fn law_get_canonicity_reads_block<C, R, E>(
    db: Database,
    codec: Codec<PrecomputedBlock<C, R>, E>,
    state_hash: Seq<char>,
)
    ensures
        run_get_canonicity(db, codec, state_hash) == (
            db,
            Some(
                match held(db, codec, block_cell(state_hash)) {
                    Ok(Some(block)) => Ok::<Option<C>, E>(block.canonicity),
                    Ok(None) => Ok(None),
                    Err(error) => Err(error),
                },
            ),
        ),
{
    reveal_with_fuel(run, 5);
}

/// A canonicity that was set on a block stored under its own state hash is the one that is read,
/// and nothing else changes in the block or in the database.
pub proof fn law_canonicity_set_is_read<C, R, E>(
    db: Database,
    codec: Codec<PrecomputedBlock<C, R>, E>,
    state_hash: Seq<char>,
    block: PrecomputedBlock<C, R>,
    canonicity: C,
)
    requires
        held(db, codec, block_cell(state_hash)) == Ok::<Option<PrecomputedBlock<C, R>>, E>(
            Some(block),
        ),
        block.state_hash@ == state_hash,
        codec.restores(with_canonicity(block, canonicity)),
    ensures
        ({
            let (after, result) = run_set_canonicity(db, codec, state_hash, canonicity);
            &&& result == Some(Ok::<(), E>(()))
            &&& run_get_canonicity(after, codec, state_hash).1 == Some(
                Ok::<Option<C>, E>(Some(canonicity)),
            )
            &&& run_read(after, codec, block_cell(state_hash), true).1 == Some(
                Ok::<Option<PrecomputedBlock<C, R>>, E>(Some(with_canonicity(block, canonicity))),
            )
            &&& forall|cell: Cell|
                cell != block_cell(state_hash) ==> (db.contains_key(cell) <==> #[trigger]
                after.contains_key(cell)) && db[cell] == after[cell]
        }),
{
    let cell = block_cell(state_hash);
    law_set_canonicity_rewrites_block(db, codec, state_hash, canonicity);
    law_write_fills_its_cell(db, codec, cell, with_canonicity(block, canonicity));
    let after = run_set_canonicity(db, codec, state_hash, canonicity).0;
    law_get_canonicity_reads_block(after, codec, state_hash);
    law_read_returns_what_is_held(after, codec, cell, true);
}

/// Setting the canonicity of a block that is not stored succeeds and changes nothing; its
/// canonicity reads as none.
pub proof fn law_missing_block_has_no_canonicity<C, R, E>(
    db: Database,
    codec: Codec<PrecomputedBlock<C, R>, E>,
    state_hash: Seq<char>,
    canonicity: C,
)
    requires
        !db.contains_key(block_cell(state_hash)),
    ensures
        run_set_canonicity(db, codec, state_hash, canonicity) == (db, Some(Ok::<(), E>(()))),
        run_get_canonicity(db, codec, state_hash) == (db, Some(Ok::<Option<C>, E>(None))),
{
    law_set_canonicity_rewrites_block(db, codec, state_hash, canonicity);
    law_get_canonicity_reads_block(db, codec, state_hash);
}

/// Adding a block and setting a canonicity keep every block under its own state hash.
pub proof fn law_blocks_stay_filed<C, R, E>(
    db: Database,
    codec: Codec<PrecomputedBlock<C, R>, E>,
    block: PrecomputedBlock<C, R>,
    state_hash: Seq<char>,
    canonicity: C,
)
    requires
        filed(db, codec),
        codec.faithful(),
    ensures
        filed(run_write(db, codec, block_cell(block.state_hash@), block).0, codec),
        filed(run_set_canonicity(db, codec, state_hash, canonicity).0, codec),
{
    law_write_fills_its_cell(db, codec, block_cell(block.state_hash@), block);
    law_set_canonicity_rewrites_block(db, codec, state_hash, canonicity);
    match held(db, codec, block_cell(state_hash)) {
        Ok(Some(found)) => {
            law_write_fills_its_cell(
                db,
                codec,
                block_cell(found.state_hash@),
                with_canonicity(found, canonicity),
            );
        },
        _ => {},
    }
}

/// Writing anything but a block, and testing the connection, keep every block under its own
/// state hash.
pub proof fn law_other_writes_leave_blocks_filed<C, R, V, E>(
    db: Database,
    codec: Codec<PrecomputedBlock<C, R>, E>,
    cell: Cell,
    value: V,
    value_codec: Codec<V, E>,
)
    requires
        filed(db, codec),
        cell.0 != ColumnFamily::Blocks,
    ensures
        filed(run_write(db, value_codec, cell, value).0, codec),
        filed(run_test_conn(db, value_codec).0, codec),
{
    law_write_fills_its_cell(db, value_codec, cell, value);
    law_test_conn_cleans_up(db, value_codec);
}

/// The error that an event reports. A failure to catch up is none: it does not matter.
pub open spec fn failure<V, E>(event: EventView<V, E>) -> Option<E> {
    match event {
        EventView::CaughtUp(_) => None,
        EventView::Got(Err(error)) => Some(error),
        EventView::Stored(Err(error)) => Some(error),
        EventView::Deleted(Err(error)) => Some(error),
        EventView::Encoded(Err(error)) => Some(error),
        EventView::Decoded(Err(error)) => Some(error),
        _ => None,
    }
}

/// An error ends an operation at once, and is what it returns.
pub proof fn law_error_ends_operation<C, R, V, E>(
    read: ReadView,
    write: WriteView,
    set: SetCanonicityView<C>,
    test: TestConn,
    event: EventView<V, E>,
    block_event: EventView<PrecomputedBlock<C, R>, E>,
    error: E,
)
    requires
        failure(event) == Some(error),
        failure(block_event) == Some(error),
    ensures
        read_awaits(read, event) ==> read_step(read, event) == (StepView::<
            ReadView,
            V,
            Result<Option<V>, E>,
        >::Finish { result: Err(error) }),
        write_awaits(write, event) ==> write_step(write, event) == (StepView::<
            WriteView,
            V,
            Result<(), E>,
        >::Finish { result: Err(error) }),
        set_canonicity_awaits(set, block_event) ==> set_canonicity_step(set, block_event) == (
        StepView::<SetCanonicityView<C>, PrecomputedBlock<C, R>, Result<(), E>>::Finish {
            result: Err(error),
        }),
        read_awaits(read, block_event) ==> get_canonicity_step(read, block_event) == (StepView::<
            ReadView,
            PrecomputedBlock<C, R>,
            Result<Option<C>, E>,
        >::Finish { result: Err(error) }),
        test_conn_awaits(test, event) ==> test_conn_step(test, event) == (StepView::<
            TestConn,
            V,
            Result<(), E>,
        >::Finish { result: Err(error) }),
{
}

/// An event that answers an operation's first action is one that it waits for.
pub proof fn law_first_answer_is_awaited<C, R, V, E>(
    cell: Cell,
    value: V,
    canonicity: C,
    bytes: Seq<u8>,
    answer: EventView<V, E>,
    block_answer: EventView<PrecomputedBlock<C, R>, E>,
)
    ensures
        answers(answer, ActionView::CatchUp) ==> read_awaits(
            ReadView::CatchingUp { cell },
            answer,
        ),
        answers(answer, ActionView::Get { cell }) ==> read_awaits(ReadView::Getting, answer),
        answers(answer, ActionView::Encode { value }) ==> write_awaits(
            WriteView::Encoding { cell },
            answer,
        ),
        answers(block_answer, ActionView::CatchUp) ==> set_canonicity_awaits(
            SetCanonicityView::Reading { read: ReadView::CatchingUp { cell }, canonicity },
            block_answer,
        ),
        answers(answer, ActionView::Put { cell, bytes }) ==> test_conn_awaits(
            TestConn::Putting,
            answer,
        ),
{
}

/// An event that answers the next action that an operation asks for is one that it waits for.
pub proof fn law_next_answer_is_awaited<C, R, V, E>(
    read: ReadView,
    write: WriteView,
    set: SetCanonicityView<C>,
    test: TestConn,
    event: EventView<V, E>,
    block_event: EventView<PrecomputedBlock<C, R>, E>,
    answer: EventView<V, E>,
    block_answer: EventView<PrecomputedBlock<C, R>, E>,
)
    ensures
        read_awaits(read, event) ==> (read_step(read, event) matches StepView::Perform {
            operation,
            action,
        } ==> answers(answer, action) ==> read_awaits(operation, answer)),
        write_awaits(write, event) ==> (write_step(write, event) matches StepView::Perform {
            operation,
            action,
        } ==> answers(answer, action) ==> write_awaits(operation, answer)),
        set_canonicity_awaits(set, block_event) ==> (set_canonicity_step(set, block_event) matches
        StepView::Perform { operation, action } ==> answers(block_answer, action)
            ==> set_canonicity_awaits(operation, block_answer)),
        read_awaits(read, block_event) ==> (get_canonicity_step(read, block_event) matches
        StepView::Perform { operation, action } ==> answers(block_answer, action) ==> read_awaits(
            operation,
            block_answer,
        )),
        test_conn_awaits(test, event) ==> (test_conn_step(test, event) matches StepView::Perform {
            operation,
            action,
        } ==> answers(answer, action) ==> test_conn_awaits(operation, answer)),
{
}

} // verus!
