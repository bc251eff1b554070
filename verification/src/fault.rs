//! Runs of operations against a database whose actions may fail, and what holds of them whatever
//! fails.

use crate::block::{
    get_canonicity_step, set_canonicity_awaits, set_canonicity_step, PrecomputedBlock,
    SetCanonicityView,
};
use crate::column_family::ColumnFamily;
use crate::connection::{test_conn_awaits, test_conn_step, TestConn};
use crate::model::{Codec, Database, Program};
use crate::operation::{
    read_awaits, read_step, write_awaits, write_step, ActionView, Cell, EventView, ReadView,
    StepView, WriteView,
};
use vstd::prelude::*;
use vstd::utf8::encode_utf8;

verus! {

/// Which actions of a database fail, and with what error. A primary database never catches up.
pub struct Faults<E> {
    pub catch_up: Option<E>,
    pub get: spec_fn(Cell) -> Option<E>,
    pub put: spec_fn(Cell) -> Option<E>,
    pub delete: spec_fn(Cell) -> Option<E>,
}

/// An action that fails changes nothing and answers with its error; any other works.
pub open spec fn attempt<V, E>(
    db: Database,
    codec: Codec<V, E>,
    faults: Faults<E>,
    action: ActionView<V>,
) -> (Database, EventView<V, E>) {
    match action {
        ActionView::CatchUp => match faults.catch_up {
            Some(error) => (db, EventView::CaughtUp(Err(error))),
            None => (db, EventView::CaughtUp(Ok(()))),
        },
        ActionView::Get { cell } => match (faults.get)(cell) {
            Some(error) => (db, EventView::Got(Err(error))),
            None => if db.contains_key(cell) {
                (db, EventView::Got(Ok(Some(db[cell]))))
            } else {
                (db, EventView::Got(Ok(None)))
            },
        },
        ActionView::Put { cell, bytes } => match (faults.put)(cell) {
            Some(error) => (db, EventView::Stored(Err(error))),
            None => (db.insert(cell, bytes), EventView::Stored(Ok(()))),
        },
        ActionView::Delete { cell } => match (faults.delete)(cell) {
            Some(error) => (db, EventView::Deleted(Err(error))),
            None => (db.remove(cell), EventView::Deleted(Ok(()))),
        },
        ActionView::Encode { value } => (db, EventView::Encoded((codec.encode)(value))),
        ActionView::Decode { bytes } => (db, EventView::Decoded((codec.decode)(bytes))),
    }
}

/// Runs an operation for at most `fuel` actions: what the database holds then, and what the
/// operation returned.
pub open spec fn run_with<O, V, E, R>(
    program: Program<O, V, E, R>,
    db: Database,
    codec: Codec<V, E>,
    faults: Faults<E>,
    operation: O,
    action: ActionView<V>,
    fuel: nat,
) -> (Database, Option<R>)
    decreases fuel,
{
    if fuel == 0 {
        (db, None)
    } else {
        let (after, event) = attempt(db, codec, faults, action);
        match program(operation, event) {
            StepView::Perform { operation, action } => run_with(
                program,
                after,
                codec,
                faults,
                operation,
                action,
                (fuel - 1) as nat,
            ),
            StepView::Finish { result } => (after, Some(result)),
        }
    }
}

/// Runs a read of a cell that catches up first.
pub open spec fn run_read_with<V, E>(
    db: Database,
    codec: Codec<V, E>,
    faults: Faults<E>,
    cell: Cell,
) -> (Database, Option<Result<Option<V>, E>>) {
    let program: Program<ReadView, V, E, Result<Option<V>, E>> = |
        operation: ReadView,
        event: EventView<V, E>,
    | read_step(operation, event);
    run_with(program, db, codec, faults, ReadView::CatchingUp { cell }, ActionView::CatchUp, 6)
}

/// Runs a read of a cell that does not catch up.
pub open spec fn run_plain_read_with<V, E>(
    db: Database,
    codec: Codec<V, E>,
    faults: Faults<E>,
    cell: Cell,
) -> (Database, Option<Result<Option<V>, E>>) {
    let program: Program<ReadView, V, E, Result<Option<V>, E>> = |
        operation: ReadView,
        event: EventView<V, E>,
    | read_step(operation, event);
    run_with(program, db, codec, faults, ReadView::Getting, ActionView::Get { cell }, 6)
}

/// Runs a write of a value to a cell.
pub open spec fn run_write_with<V, E>(
    db: Database,
    codec: Codec<V, E>,
    faults: Faults<E>,
    cell: Cell,
    value: V,
) -> (Database, Option<Result<(), E>>) {
    let program: Program<WriteView, V, E, Result<(), E>> = |
        operation: WriteView,
        event: EventView<V, E>,
    | write_step(operation, event);
    run_with(
        program,
        db,
        codec,
        faults,
        WriteView::Encoding { cell },
        ActionView::Encode { value },
        6,
    )
}

/// Runs a change of the canonicity of the block of a state hash.
pub open spec fn run_set_canonicity_with<C, R, E>(
    db: Database,
    codec: Codec<PrecomputedBlock<C, R>, E>,
    faults: Faults<E>,
    state_hash: Seq<char>,
    canonicity: C,
) -> (Database, Option<Result<(), E>>) {
    let program: Program<
        SetCanonicityView<C>,
        PrecomputedBlock<C, R>,
        E,
        Result<(), E>,
    > = |operation: SetCanonicityView<C>, event: EventView<PrecomputedBlock<C, R>, E>|
        set_canonicity_step(operation, event);
    run_with(
        program,
        db,
        codec,
        faults,
        SetCanonicityView::Reading {
            read: ReadView::CatchingUp { cell: (ColumnFamily::Blocks, encode_utf8(state_hash)) },
            canonicity,
        },
        ActionView::CatchUp,
        6,
    )
}

/// Runs a read of the canonicity of the block of a state hash.
pub open spec fn run_get_canonicity_with<C, R, E>(
    db: Database,
    codec: Codec<PrecomputedBlock<C, R>, E>,
    faults: Faults<E>,
    state_hash: Seq<char>,
) -> (Database, Option<Result<Option<C>, E>>) {
    let program: Program<ReadView, PrecomputedBlock<C, R>, E, Result<Option<C>, E>> = |
        operation: ReadView,
        event: EventView<PrecomputedBlock<C, R>, E>,
    | get_canonicity_step(operation, event);
    run_with(
        program,
        db,
        codec,
        faults,
        ReadView::CatchingUp { cell: (ColumnFamily::Blocks, encode_utf8(state_hash)) },
        ActionView::CatchUp,
        6,
    )
}

/// Runs a test of the connection.
pub open spec fn run_test_conn_with<V, E>(
    db: Database,
    codec: Codec<V, E>,
    faults: Faults<E>,
) -> (Database, Option<Result<(), E>>) {
    let program: Program<TestConn, V, E, Result<(), E>> = |
        operation: TestConn,
        event: EventView<V, E>,
    | test_conn_step(operation, event);
    run_with(
        program,
        db,
        codec,
        faults,
        TestConn::Putting,
        ActionView::Put {
            cell: (ColumnFamily::Default, encode_utf8("test"@)),
            bytes: encode_utf8("value"@),
        },
        6,
    )
}

/// A read returns what its cell holds, or the error of getting or deserialising it. Whether it
/// caught up with the primary does not matter. It changes nothing.
pub proof fn law_read_whatever_fails<V, E>(
    db: Database,
    codec: Codec<V, E>,
    faults: Faults<E>,
    cell: Cell,
)
    ensures
        run_read_with(db, codec, faults, cell).0 == db,
        run_plain_read_with(db, codec, faults, cell) == run_read_with(db, codec, faults, cell),
        match (faults.get)(cell) {
            Some(error) => run_read_with(db, codec, faults, cell).1 == Some(
                Err::<Option<V>, E>(error),
            ),
            None => if db.contains_key(cell) {
                match (codec.decode)(db[cell]) {
                    Ok(value) => run_read_with(db, codec, faults, cell).1 == Some(
                        Ok::<Option<V>, E>(Some(value)),
                    ),
                    Err(error) => run_read_with(db, codec, faults, cell).1 == Some(
                        Err::<Option<V>, E>(error),
                    ),
                }
            } else {
                run_read_with(db, codec, faults, cell).1 == Some(Ok::<Option<V>, E>(None))
            },
        },
{
    reveal_with_fuel(run_with, 5);
}

/// A write leaves the serialised value in its cell and nothing else changed; or it changes
/// nothing, and returns the error of serialising or putting it.
pub proof fn law_write_whatever_fails<V, E>(
    db: Database,
    codec: Codec<V, E>,
    faults: Faults<E>,
    cell: Cell,
    value: V,
)
    ensures
        match ((codec.encode)(value), (faults.put)(cell)) {
            (Ok(bytes), None) => run_write_with(db, codec, faults, cell, value) == (
                db.insert(cell, bytes),
                Some(Ok::<(), E>(())),
            ),
            (Ok(_), Some(error)) => run_write_with(db, codec, faults, cell, value) == (
                db,
                Some(Err::<(), E>(error)),
            ),
            (Err(error), _) => run_write_with(db, codec, faults, cell, value) == (
                db,
                Some(Err::<(), E>(error)),
            ),
        },
{
    reveal_with_fuel(run_with, 4);
}

/// A change of canonicity is a read of the block of the state hash and, where there is one, a
/// write of the same block with the new canonicity to the place of its own state hash. Where
/// there is none, or the read fails, nothing is written.
pub proof fn law_set_canonicity_whatever_fails<C, R, E>(
    db: Database,
    codec: Codec<PrecomputedBlock<C, R>, E>,
    faults: Faults<E>,
    state_hash: Seq<char>,
    canonicity: C,
)
    ensures
        match run_read_with(
            db,
            codec,
            faults,
            (ColumnFamily::Blocks, encode_utf8(state_hash)),
        ).1 {
            Some(Ok(Some(block))) => run_set_canonicity_with(
                db,
                codec,
                faults,
                state_hash,
                canonicity,
            ) == run_write_with(
                db,
                codec,
                faults,
                (ColumnFamily::Blocks, encode_utf8(block.state_hash@)),
                PrecomputedBlock {
                    state_hash: block.state_hash,
                    canonicity: Some(canonicity),
                    rest: block.rest,
                },
            ),
            Some(Ok(None)) => run_set_canonicity_with(db, codec, faults, state_hash, canonicity)
                == (db, Some(Ok::<(), E>(()))),
            Some(Err(error)) => run_set_canonicity_with(db, codec, faults, state_hash, canonicity)
                == (db, Some(Err::<(), E>(error))),
            None => false,
        },
{
    reveal_with_fuel(run_with, 7);
}

/// Reading a canonicity is a read of the block of the state hash, of which the canonicity is
/// returned; a block that is not there has none.
pub proof fn law_get_canonicity_whatever_fails<C, R, E>(
    db: Database,
    codec: Codec<PrecomputedBlock<C, R>, E>,
    faults: Faults<E>,
    state_hash: Seq<char>,
)
    ensures
        run_get_canonicity_with(db, codec, faults, state_hash).0 == db,
        match run_read_with(
            db,
            codec,
            faults,
            (ColumnFamily::Blocks, encode_utf8(state_hash)),
        ).1 {
            Some(Ok(Some(block))) => run_get_canonicity_with(db, codec, faults, state_hash).1
                == Some(Ok::<Option<C>, E>(block.canonicity)),
            Some(Ok(None)) => run_get_canonicity_with(db, codec, faults, state_hash).1 == Some(
                Ok::<Option<C>, E>(None),
            ),
            Some(Err(error)) => run_get_canonicity_with(db, codec, faults, state_hash).1 == Some(
                Err::<Option<C>, E>(error),
            ),
            None => false,
        },
{
    reveal_with_fuel(run_with, 5);
}

/// A test of the connection fails where its value cannot be put, and then changes nothing; it
/// fails where it cannot be deleted, and then leaves it; else it succeeds and leaves nothing.
pub proof fn law_test_conn_whatever_fails<V, E>(db: Database, codec: Codec<V, E>, faults: Faults<E>)
    ensures
        ({
            let cell = (ColumnFamily::Default, encode_utf8("test"@));
            match ((faults.put)(cell), (faults.delete)(cell)) {
                (Some(error), _) => run_test_conn_with(db, codec, faults) == (
                    db,
                    Some(Err::<(), E>(error)),
                ),
                (None, Some(error)) => run_test_conn_with(db, codec, faults) == (
                    db.insert(cell, encode_utf8("value"@)),
                    Some(Err::<(), E>(error)),
                ),
                (None, None) => run_test_conn_with(db, codec, faults) == (
                    db.remove(cell),
                    Some(Ok::<(), E>(())),
                ),
            }
        }),
{
    reveal_with_fuel(run_with, 4);
    let cell = (ColumnFamily::Default, encode_utf8("test"@));
    assert(db.insert(cell, encode_utf8("value"@)).remove(cell) =~= db.remove(cell));
}

/// Two databases that hold the same and differ only in whether they catch up, as a primary and a
/// secondary do, give the same results and hold the same afterwards.
pub proof fn law_catching_up_does_not_matter<C, R, V, E>(
    db: Database,
    codec: Codec<V, E>,
    block_codec: Codec<PrecomputedBlock<C, R>, E>,
    faults: Faults<E>,
    other: Faults<E>,
    cell: Cell,
    state_hash: Seq<char>,
    canonicity: C,
)
    requires
        other.get == faults.get,
        other.put == faults.put,
        other.delete == faults.delete,
    ensures
        run_read_with(db, codec, faults, cell) == run_read_with(db, codec, other, cell),
        run_set_canonicity_with(db, block_codec, faults, state_hash, canonicity)
            == run_set_canonicity_with(db, block_codec, other, state_hash, canonicity),
        run_get_canonicity_with(db, block_codec, faults, state_hash) == run_get_canonicity_with(
            db,
            block_codec,
            other,
            state_hash,
        ),
{
    let block_cell = (ColumnFamily::Blocks, encode_utf8(state_hash));
    law_read_whatever_fails(db, codec, faults, cell);
    law_read_whatever_fails(db, codec, other, cell);
    law_read_whatever_fails(db, block_codec, faults, block_cell);
    law_read_whatever_fails(db, block_codec, other, block_cell);
    law_set_canonicity_whatever_fails(db, block_codec, faults, state_hash, canonicity);
    law_set_canonicity_whatever_fails(db, block_codec, other, state_hash, canonicity);
    law_get_canonicity_whatever_fails(db, block_codec, faults, state_hash);
    law_get_canonicity_whatever_fails(db, block_codec, other, state_hash);
    match run_read_with(db, block_codec, faults, block_cell).1 {
        Some(Ok(Some(block))) => {
            let cell = (ColumnFamily::Blocks, encode_utf8(block.state_hash@));
            let changed = PrecomputedBlock {
                state_hash: block.state_hash,
                canonicity: Some(canonicity),
                rest: block.rest,
            };
            law_write_whatever_fails(db, block_codec, faults, cell, changed);
            law_write_whatever_fails(db, block_codec, other, cell, changed);
        },
        _ => {},
    }
}

/// A block that was added is read back by its state hash, and so is the canonicity that was set
/// on it, with the rest of the block as it was; on a primary too, which fails to catch up.
pub proof fn law_block_and_canonicity_are_read_back<C, R, E>(
    db: Database,
    codec: Codec<PrecomputedBlock<C, R>, E>,
    faults: Faults<E>,
    block: PrecomputedBlock<C, R>,
    canonicity: C,
)
    requires
        codec.restores(block),
        codec.restores(
            PrecomputedBlock {
                state_hash: block.state_hash,
                canonicity: Some(canonicity),
                rest: block.rest,
            },
        ),
        forall|cell: Cell| #[trigger] (faults.get)(cell) is None,
        forall|cell: Cell| #[trigger] (faults.put)(cell) is None,
    ensures
        ({
            let cell = (ColumnFamily::Blocks, encode_utf8(block.state_hash@));
            let hash = block.state_hash@;
            let (added, add_result) = run_write_with(db, codec, faults, cell, block);
            let (set, set_result) = run_set_canonicity_with(
                added,
                codec,
                faults,
                hash,
                canonicity,
            );
            &&& add_result == Some(Ok::<(), E>(()))
            &&& run_read_with(added, codec, faults, cell).1 == Some(
                Ok::<Option<PrecomputedBlock<C, R>>, E>(Some(block)),
            )
            &&& run_get_canonicity_with(added, codec, faults, hash).1 == Some(
                Ok::<Option<C>, E>(block.canonicity),
            )
            &&& set_result == Some(Ok::<(), E>(()))
            &&& run_get_canonicity_with(set, codec, faults, hash).1 == Some(
                Ok::<Option<C>, E>(Some(canonicity)),
            )
            &&& run_read_with(set, codec, faults, cell).1 == Some(
                Ok::<Option<PrecomputedBlock<C, R>>, E>(
                    Some(
                        PrecomputedBlock {
                            state_hash: block.state_hash,
                            canonicity: Some(canonicity),
                            rest: block.rest,
                        },
                    ),
                ),
            )
            &&& forall|other: Cell| other != cell ==> (set.contains_key(other)
                <==> #[trigger] db.contains_key(other)) && set[other] == db[other]
        }),
{
    let cell = (ColumnFamily::Blocks, encode_utf8(block.state_hash@));
    let hash = block.state_hash@;
    let changed = PrecomputedBlock {
        state_hash: block.state_hash,
        canonicity: Some(canonicity),
        rest: block.rest,
    };
    law_write_whatever_fails(db, codec, faults, cell, block);
    let added = run_write_with(db, codec, faults, cell, block).0;
    law_read_whatever_fails(added, codec, faults, cell);
    law_get_canonicity_whatever_fails(added, codec, faults, hash);
    law_set_canonicity_whatever_fails(added, codec, faults, hash, canonicity);
    law_write_whatever_fails(added, codec, faults, cell, changed);
    let set = run_set_canonicity_with(added, codec, faults, hash, canonicity).0;
    law_read_whatever_fails(set, codec, faults, cell);
    law_get_canonicity_whatever_fails(set, codec, faults, hash);
}

/// Runs a read on a secondary that holds `own` until it has caught up with its primary.
pub open spec fn run_read_on_secondary<V, E>(
    own: Database,
    primary: Database,
    codec: Codec<V, E>,
    faults: Faults<E>,
    cell: Cell,
) -> (Database, Option<Result<Option<V>, E>>) {
    let program: Program<ReadView, V, E, Result<Option<V>, E>> = |
        operation: ReadView,
        event: EventView<V, E>,
    | read_step(operation, event);
    match program(ReadView::CatchingUp { cell }, EventView::CaughtUp(Ok(()))) {
        StepView::Perform { operation, action } => run_with(
            program,
            primary,
            codec,
            faults,
            operation,
            action,
            5,
        ),
        StepView::Finish { result } => (own, Some(result)),
    }
}

/// A secondary that catches up reads what its primary holds.
pub proof fn law_secondary_reads_what_primary_holds<V, E>(
    own: Database,
    primary: Database,
    codec: Codec<V, E>,
    faults: Faults<E>,
    cell: Cell,
)
    ensures
        run_read_on_secondary(own, primary, codec, faults, cell) == run_read_with(
            primary,
            codec,
            faults,
            cell,
        ),
{
    reveal_with_fuel(run_with, 5);
}

/// An operation takes any answer to its action, whether it worked or not.
pub proof fn law_every_outcome_is_taken<C, R, V, E>(
    cell: Cell,
    canonicity: C,
    done: Result<(), E>,
    got: Result<Option<Seq<u8>>, E>,
    encoded: Result<Seq<u8>, E>,
    decoded: Result<V, E>,
    block: Result<PrecomputedBlock<C, R>, E>,
)
    ensures
        read_awaits(ReadView::CatchingUp { cell }, EventView::<V, E>::CaughtUp(done)),
        read_awaits(ReadView::Getting, EventView::<V, E>::Got(got)),
        read_awaits(ReadView::Decoding, EventView::<V, E>::Decoded(decoded)),
        write_awaits(WriteView::Encoding { cell }, EventView::<V, E>::Encoded(encoded)),
        write_awaits(WriteView::Putting, EventView::<V, E>::Stored(done)),
        test_conn_awaits(TestConn::Putting, EventView::<V, E>::Stored(done)),
        test_conn_awaits(TestConn::Deleting, EventView::<V, E>::Deleted(done)),
        set_canonicity_awaits(
            SetCanonicityView::Reading { read: ReadView::CatchingUp { cell }, canonicity },
            EventView::<PrecomputedBlock<C, R>, E>::CaughtUp(done),
        ),
        set_canonicity_awaits(
            SetCanonicityView::Reading { read: ReadView::Getting, canonicity },
            EventView::<PrecomputedBlock<C, R>, E>::Got(got),
        ),
        set_canonicity_awaits(
            SetCanonicityView::Reading { read: ReadView::Decoding, canonicity },
            EventView::<PrecomputedBlock<C, R>, E>::Decoded(block),
        ),
        set_canonicity_awaits(
            SetCanonicityView::<C>::Writing { write: WriteView::Encoding { cell } },
            EventView::<PrecomputedBlock<C, R>, E>::Encoded(encoded),
        ),
        set_canonicity_awaits(
            SetCanonicityView::<C>::Writing { write: WriteView::Putting },
            EventView::<PrecomputedBlock<C, R>, E>::Stored(done),
        ),
{
}

} // verus!
