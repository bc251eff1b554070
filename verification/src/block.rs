//! Blocks as the store sees them, and the operations on their canonicity.

use crate::column_family::ColumnFamily;
use crate::operation::{
    read_awaits, read_step, write_awaits, write_step, Action, ActionView, Cell, Event, EventView,
    Read, ReadView, Slot, Step, StepView, Write, WriteView,
};
use vstd::prelude::*;
use vstd::string::StrSliceExecFns;
use vstd::utf8::encode_utf8;

verus! {

/// The state hash that names a block.
#[derive(Debug)]
pub struct BlockHash(pub String);

/// A block: its state hash, how it stands in the chain, and whatever else it holds.
#[derive(Debug)]
pub struct PrecomputedBlock<C, R> {
    pub state_hash: String,
    pub canonicity: Option<C>,
    pub rest: R,
}

/// Where the block of a state hash is stored.
pub open spec fn block_cell(state_hash: Seq<char>) -> Cell {
    (ColumnFamily::Blocks, encode_utf8(state_hash))
}

/// Where the block of a state hash is stored.
pub fn block_slot(state_hash: &str) -> (slot: Slot)
    ensures
        slot@ == block_cell(state_hash@),
        slot.family == ColumnFamily::Blocks,
        slot.key@ == encode_utf8(state_hash@),
{
    Slot { family: ColumnFamily::Blocks, key: state_hash.as_bytes_vec() }
}

/// The same block with another canonicity.
pub open spec fn with_canonicity<C, R>(
    block: PrecomputedBlock<C, R>,
    canonicity: C,
) -> PrecomputedBlock<C, R> {
    PrecomputedBlock { canonicity: Some(canonicity), ..block }
}

/// Reading a block and writing it back with another canonicity.
#[derive(Debug)]
pub enum SetCanonicity<C> {
    Reading { read: Read, canonicity: C },
    Writing { write: Write },
}

/// A change of canonicity, and the action it waits for.
pub enum SetCanonicityView<C> {
    Reading { read: ReadView, canonicity: C },
    Writing { write: WriteView },
}

impl<C> View for SetCanonicity<C> {
    type V = SetCanonicityView<C>;

    open spec fn view(&self) -> SetCanonicityView<C> {
        match *self {
            SetCanonicity::Reading { read, canonicity } => SetCanonicityView::Reading {
                read: read@,
                canonicity,
            },
            SetCanonicity::Writing { write } => SetCanonicityView::Writing { write: write@ },
        }
    }
}

/// The change waits for an event of this kind.
pub open spec fn set_canonicity_awaits<C, R, E>(
    operation: SetCanonicityView<C>,
    event: EventView<PrecomputedBlock<C, R>, E>,
) -> bool {
    match operation {
        SetCanonicityView::Reading { read, .. } => read_awaits(read, event),
        SetCanonicityView::Writing { write } => write_awaits(write, event),
    }
}

/// How a change of canonicity goes on: the block that was read is written, changed, to the place
/// of its own state hash; where there is no block, nothing is written.
pub open spec fn set_canonicity_step<C, R, E>(
    operation: SetCanonicityView<C>,
    event: EventView<PrecomputedBlock<C, R>, E>,
) -> StepView<SetCanonicityView<C>, PrecomputedBlock<C, R>, Result<(), E>> {
    match operation {
        SetCanonicityView::Reading { read, canonicity } => match read_step(read, event) {
            StepView::Perform { operation, action } => StepView::Perform {
                operation: SetCanonicityView::Reading { read: operation, canonicity },
                action,
            },
            StepView::Finish { result: Ok(Some(block)) } => StepView::Perform {
                operation: SetCanonicityView::Writing {
                    write: WriteView::Encoding { cell: block_cell(block.state_hash@) },
                },
                action: ActionView::Encode { value: with_canonicity(block, canonicity) },
            },
            StepView::Finish { result: Ok(None) } => StepView::Finish { result: Ok(()) },
            StepView::Finish { result: Err(error) } => StepView::Finish { result: Err(error) },
        },
        SetCanonicityView::Writing { write } => match write_step(write, event) {
            StepView::Perform { operation, action } => StepView::Perform {
                operation: SetCanonicityView::Writing { write: operation },
                action,
            },
            StepView::Finish { result } => StepView::Finish { result },
        },
    }
}

impl<C> SetCanonicity<C> {
    /// Starts changing the canonicity of the block of a state hash.
    pub fn start<R>(state_hash: &BlockHash, canonicity: C) -> (started: (
        SetCanonicity<C>,
        Action<PrecomputedBlock<C, R>>,
    ))
        ensures
            started.0@ == (SetCanonicityView::Reading {
                read: ReadView::CatchingUp { cell: block_cell(state_hash.0@) },
                canonicity,
            }),
            started.1@ == ActionView::<PrecomputedBlock<C, R>>::CatchUp,
            started.0 matches SetCanonicity::Reading {
                read: Read::CatchingUp { slot },
                canonicity: wanted,
            } && slot.family == ColumnFamily::Blocks && slot.key@ == encode_utf8(state_hash.0@)
                && wanted == canonicity,
            started.1 == Action::<PrecomputedBlock<C, R>>::CatchUp,
    {
        let (read, action) = Read::start_caught_up(block_slot(state_hash.0.as_str()));
        (SetCanonicity::Reading { read, canonicity }, action)
    }

    /// Goes on with what came of the last action.
    pub fn next<R, E>(self, event: Event<PrecomputedBlock<C, R>, E>) -> (step: Step<
        SetCanonicity<C>,
        PrecomputedBlock<C, R>,
        Result<(), E>,
    >)
        requires
            set_canonicity_awaits(self@, event@),
        ensures
            step@ == set_canonicity_step(self@, event@),
            match (self, event) {
                (
                    SetCanonicity::Reading { read: Read::CatchingUp { slot }, canonicity },
                    Event::CaughtUp(_),
                ) => step == (Step::<
                    SetCanonicity<C>,
                    PrecomputedBlock<C, R>,
                    Result<(), E>,
                >::Perform {
                    operation: SetCanonicity::Reading { read: Read::Getting, canonicity },
                    action: Action::Get { slot },
                }),
                (
                    SetCanonicity::Reading { read: Read::Getting, canonicity },
                    Event::Got(Ok(Some(bytes))),
                ) => step == (Step::<
                    SetCanonicity<C>,
                    PrecomputedBlock<C, R>,
                    Result<(), E>,
                >::Perform {
                    operation: SetCanonicity::Reading { read: Read::Decoding, canonicity },
                    action: Action::Decode { bytes },
                }),
                (
                    SetCanonicity::Reading { read: Read::Getting, .. },
                    Event::Got(Ok(None)),
                ) => step == (Step::<
                    SetCanonicity<C>,
                    PrecomputedBlock<C, R>,
                    Result<(), E>,
                >::Finish { result: Ok(()) }),
                (
                    SetCanonicity::Reading { read: Read::Getting, .. },
                    Event::Got(Err(error)),
                ) => step == (Step::<
                    SetCanonicity<C>,
                    PrecomputedBlock<C, R>,
                    Result<(), E>,
                >::Finish { result: Err(error) }),
                (
                    SetCanonicity::Reading { read: Read::Decoding, canonicity },
                    Event::Decoded(Ok(block)),
                ) => step matches Step::Perform {
                    operation: SetCanonicity::Writing { write: Write::Encoding { slot } },
                    action: Action::Encode { value },
                } && slot.family == ColumnFamily::Blocks && slot.key@ == encode_utf8(
                    block.state_hash@,
                ) && value.state_hash == block.state_hash && value.canonicity == Some(canonicity)
                    && value.rest == block.rest,
                (
                    SetCanonicity::Reading { read: Read::Decoding, .. },
                    Event::Decoded(Err(error)),
                ) => step == (Step::<
                    SetCanonicity<C>,
                    PrecomputedBlock<C, R>,
                    Result<(), E>,
                >::Finish { result: Err(error) }),
                (
                    SetCanonicity::Writing { write: Write::Encoding { slot } },
                    Event::Encoded(Ok(bytes)),
                ) => step == (Step::<
                    SetCanonicity<C>,
                    PrecomputedBlock<C, R>,
                    Result<(), E>,
                >::Perform {
                    operation: SetCanonicity::Writing { write: Write::Putting },
                    action: Action::Put { slot, bytes },
                }),
                (
                    SetCanonicity::Writing { write: Write::Encoding { .. } },
                    Event::Encoded(Err(error)),
                ) => step == (Step::<
                    SetCanonicity<C>,
                    PrecomputedBlock<C, R>,
                    Result<(), E>,
                >::Finish { result: Err(error) }),
                (
                    SetCanonicity::Writing { write: Write::Putting },
                    Event::Stored(result),
                ) => step == (Step::<
                    SetCanonicity<C>,
                    PrecomputedBlock<C, R>,
                    Result<(), E>,
                >::Finish { result }),
                _ => true,
            },
    {
        match self {
            SetCanonicity::Reading { read, canonicity } => match read.next(event) {
                Step::Perform { operation, action } => Step::Perform {
                    operation: SetCanonicity::Reading { read: operation, canonicity },
                    action,
                },
                Step::Finish { result: Ok(Some(precomputed_block)) } => {
                    let with_canonicity = PrecomputedBlock {
                        canonicity: Some(canonicity),
                        ..precomputed_block
                    };
                    let slot: Slot = block_slot(with_canonicity.state_hash.as_str());
                    let (write, action) = Write::start(slot, with_canonicity);
                    Step::Perform { operation: SetCanonicity::Writing { write }, action }
                },
                Step::Finish { result: Ok(None) } => Step::Finish { result: Ok(()) },
                Step::Finish { result: Err(error) } => Step::Finish { result: Err(error) },
            },
            SetCanonicity::Writing { write } => match write.next(event) {
                Step::Perform { operation, action } => Step::Perform {
                    operation: SetCanonicity::Writing { write: operation },
                    action,
                },
                Step::Finish { result } => Step::Finish { result },
            },
        }
    }
}

/// Reading a block for its canonicity.
#[derive(Debug)]
pub struct GetCanonicity {
    pub read: Read,
}

impl View for GetCanonicity {
    type V = ReadView;

    open spec fn view(&self) -> ReadView {
        self.read@
    }
}

/// How it goes on: as a read of the block, of which it returns the canonicity; a missing block
/// has none.
pub open spec fn get_canonicity_step<C, R, E>(
    read: ReadView,
    event: EventView<PrecomputedBlock<C, R>, E>,
) -> StepView<ReadView, PrecomputedBlock<C, R>, Result<Option<C>, E>> {
    match read_step(read, event) {
        StepView::Perform { operation, action } => StepView::Perform { operation, action },
        StepView::Finish { result: Ok(Some(block)) } => StepView::Finish {
            result: Ok(block.canonicity),
        },
        StepView::Finish { result: Ok(None) } => StepView::Finish { result: Ok(None) },
        StepView::Finish { result: Err(error) } => StepView::Finish { result: Err(error) },
    }
}

impl GetCanonicity {
    /// Starts reading the canonicity of the block of a state hash.
    pub fn start<C, R>(state_hash: &BlockHash) -> (started: (
        GetCanonicity,
        Action<PrecomputedBlock<C, R>>,
    ))
        ensures
            started.0@ == (ReadView::CatchingUp { cell: block_cell(state_hash.0@) }),
            started.1@ == ActionView::<PrecomputedBlock<C, R>>::CatchUp,
            started.0.read matches Read::CatchingUp { slot } && slot.family
                == ColumnFamily::Blocks && slot.key@ == encode_utf8(state_hash.0@),
            started.1 == Action::<PrecomputedBlock<C, R>>::CatchUp,
    {
        let (read, action) = Read::start_caught_up(block_slot(state_hash.0.as_str()));
        (GetCanonicity { read }, action)
    }

    /// Goes on with what came of the last action.
    pub fn next<C, R, E>(self, event: Event<PrecomputedBlock<C, R>, E>) -> (step: Step<
        GetCanonicity,
        PrecomputedBlock<C, R>,
        Result<Option<C>, E>,
    >)
        requires
            read_awaits(self@, event@),
        ensures
            step@ == get_canonicity_step(self@, event@),
            match (self.read, event) {
                (Read::CatchingUp { slot }, Event::CaughtUp(_)) => step == (Step::<
                    GetCanonicity,
                    PrecomputedBlock<C, R>,
                    Result<Option<C>, E>,
                >::Perform {
                    operation: GetCanonicity { read: Read::Getting },
                    action: Action::Get { slot },
                }),
                (Read::Getting, Event::Got(Ok(Some(bytes)))) => step == (Step::<
                    GetCanonicity,
                    PrecomputedBlock<C, R>,
                    Result<Option<C>, E>,
                >::Perform {
                    operation: GetCanonicity { read: Read::Decoding },
                    action: Action::Decode { bytes },
                }),
                (Read::Getting, Event::Got(Ok(None))) => step == (Step::<
                    GetCanonicity,
                    PrecomputedBlock<C, R>,
                    Result<Option<C>, E>,
                >::Finish { result: Ok(None) }),
                (Read::Getting, Event::Got(Err(error))) => step == (Step::<
                    GetCanonicity,
                    PrecomputedBlock<C, R>,
                    Result<Option<C>, E>,
                >::Finish { result: Err(error) }),
                (Read::Decoding, Event::Decoded(Ok(block))) => step == (Step::<
                    GetCanonicity,
                    PrecomputedBlock<C, R>,
                    Result<Option<C>, E>,
                >::Finish { result: Ok(block.canonicity) }),
                (Read::Decoding, Event::Decoded(Err(error))) => step == (Step::<
                    GetCanonicity,
                    PrecomputedBlock<C, R>,
                    Result<Option<C>, E>,
                >::Finish { result: Err(error) }),
                _ => true,
            },
    {
        match self.read.next(event) {
            Step::Perform { operation, action } => Step::Perform {
                operation: GetCanonicity { read: operation },
                action,
            },
            Step::Finish { result: Ok(Some(block)) } => Step::Finish {
                result: Ok(block.canonicity),
            },
            Step::Finish { result: Ok(None) } => Step::Finish { result: Ok(None) },
            Step::Finish { result: Err(error) } => Step::Finish { result: Err(error) },
        }
    }
}

/// A block whose canonicity is changed keeps its state hash and all else that it holds.
pub proof fn law_only_canonicity_changes<C, R>(block: PrecomputedBlock<C, R>, canonicity: C)
    ensures
        with_canonicity(block, canonicity).canonicity == Some(canonicity),
        with_canonicity(block, canonicity).state_hash == block.state_hash,
        with_canonicity(block, canonicity).rest == block.rest,
{
}

/// What a change of canonicity waits for, and what it is to set, is what it holds; a read of a
/// canonicity waits for what its read does.
pub proof fn law_change_is_what_is_held<C>(change: SetCanonicity<C>, get: GetCanonicity)
    ensures
        match change {
            SetCanonicity::Reading { read, canonicity } => change@ == (
            SetCanonicityView::<C>::Reading { read: read@, canonicity }),
            SetCanonicity::Writing { write } => change@ == (SetCanonicityView::<C>::Writing {
                write: write@,
            }),
        },
        get@ == get.read@,
{
}

/// A change of canonicity goes on to read the block, whether or not catching up has worked.
pub proof fn law_change_goes_on_after_catching_up<C, R, E>(
    cell: Cell,
    canonicity: C,
    outcome: Result<(), E>,
)
    ensures
        set_canonicity_step(
            SetCanonicityView::Reading { read: ReadView::CatchingUp { cell }, canonicity },
            EventView::<PrecomputedBlock<C, R>, E>::CaughtUp(outcome),
        ) == (StepView::<SetCanonicityView<C>, PrecomputedBlock<C, R>, Result<(), E>>::Perform {
            operation: SetCanonicityView::Reading { read: ReadView::Getting, canonicity },
            action: ActionView::Get { cell },
        }),
{
}

} // verus!
