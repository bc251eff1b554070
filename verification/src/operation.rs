//! Operations of the store as sequences of actions on the database. An operation names the next
//! action, and is told what came of it.

use crate::column_family::ColumnFamily;
use vstd::pervasive::unreached;
use vstd::prelude::*;

verus! {

/// A place in the database: a key in a column family.
pub type Cell = (ColumnFamily, Seq<u8>);

/// A place in the database: a key in a column family.
#[derive(Debug)]
pub struct Slot {
    pub family: ColumnFamily,
    pub key: Vec<u8>,
}

impl View for Slot {
    type V = Cell;

    open spec fn view(&self) -> Cell {
        (self.family, self.key@)
    }
}

/// Something to be done outside, on values of type `V`.
#[derive(Debug)]
pub enum Action<V> {
    /// Catch up with the primary database.
    CatchUp,
    /// Read a place.
    Get { slot: Slot },
    /// Write bytes to a place.
    Put { slot: Slot, bytes: Vec<u8> },
    /// Empty a place.
    Delete { slot: Slot },
    /// Serialise a value.
    Encode { value: V },
    /// Deserialise a value.
    Decode { bytes: Vec<u8> },
}

/// What an action asks for.
pub enum ActionView<V> {
    CatchUp,
    Get { cell: Cell },
    Put { cell: Cell, bytes: Seq<u8> },
    Delete { cell: Cell },
    Encode { value: V },
    Decode { bytes: Seq<u8> },
}

impl<V> View for Action<V> {
    type V = ActionView<V>;

    open spec fn view(&self) -> ActionView<V> {
        match *self {
            Action::CatchUp => ActionView::CatchUp,
            Action::Get { slot } => ActionView::Get { cell: slot@ },
            Action::Put { slot, bytes } => ActionView::Put { cell: slot@, bytes: bytes@ },
            Action::Delete { slot } => ActionView::Delete { cell: slot@ },
            Action::Encode { value } => ActionView::Encode { value },
            Action::Decode { bytes } => ActionView::Decode { bytes: bytes@ },
        }
    }
}

/// What came of an action; `E` is the error of whoever performs it.
#[derive(Debug)]
pub enum Event<V, E> {
    CaughtUp(Result<(), E>),
    Got(Result<Option<Vec<u8>>, E>),
    Stored(Result<(), E>),
    Deleted(Result<(), E>),
    Encoded(Result<Vec<u8>, E>),
    Decoded(Result<V, E>),
}

/// What an event says.
pub enum EventView<V, E> {
    CaughtUp(Result<(), E>),
    Got(Result<Option<Seq<u8>>, E>),
    Stored(Result<(), E>),
    Deleted(Result<(), E>),
    Encoded(Result<Seq<u8>, E>),
    Decoded(Result<V, E>),
}

impl<V, E> View for Event<V, E> {
    type V = EventView<V, E>;

    open spec fn view(&self) -> EventView<V, E> {
        match *self {
            Event::CaughtUp(result) => EventView::CaughtUp(result),
            Event::Got(Ok(Some(bytes))) => EventView::Got(Ok(Some(bytes@))),
            Event::Got(Ok(None)) => EventView::Got(Ok(None)),
            Event::Got(Err(error)) => EventView::Got(Err(error)),
            Event::Stored(result) => EventView::Stored(result),
            Event::Deleted(result) => EventView::Deleted(result),
            Event::Encoded(Ok(bytes)) => EventView::Encoded(Ok(bytes@)),
            Event::Encoded(Err(error)) => EventView::Encoded(Err(error)),
            Event::Decoded(result) => EventView::Decoded(result),
        }
    }
}

/// The event answers the action.
pub open spec fn answers<V, E>(event: EventView<V, E>, action: ActionView<V>) -> bool {
    match action {
        ActionView::CatchUp => event is CaughtUp,
        ActionView::Get { .. } => event is Got,
        ActionView::Put { .. } => event is Stored,
        ActionView::Delete { .. } => event is Deleted,
        ActionView::Encode { .. } => event is Encoded,
        ActionView::Decode { .. } => event is Decoded,
    }
}

/// What an operation wants after an event: another action, or to return.
#[derive(Debug)]
pub enum Step<O, V, R> {
    Perform { operation: O, action: Action<V> },
    Finish { result: R },
}

/// What a step says.
pub enum StepView<O, V, R> {
    Perform { operation: O, action: ActionView<V> },
    Finish { result: R },
}

impl<O: View, V, R> View for Step<O, V, R> {
    type V = StepView<O::V, V, R>;

    open spec fn view(&self) -> StepView<O::V, V, R> {
        match *self {
            Step::Perform { operation, action } => StepView::Perform {
                operation: operation@,
                action: action@,
            },
            Step::Finish { result } => StepView::Finish { result },
        }
    }
}

/// Reading a value, waiting for its last action.
#[derive(Debug)]
pub enum Read {
    /// Catching up with the primary database, before reading the slot.
    CatchingUp { slot: Slot },
    Getting,
    Decoding,
}

/// A read, and the action it waits for.
pub enum ReadView {
    CatchingUp { cell: Cell },
    Getting,
    Decoding,
}

impl View for Read {
    type V = ReadView;

    open spec fn view(&self) -> ReadView {
        match *self {
            Read::CatchingUp { slot } => ReadView::CatchingUp { cell: slot@ },
            Read::Getting => ReadView::Getting,
            Read::Decoding => ReadView::Decoding,
        }
    }
}

/// The read waits for an event of this kind.
pub open spec fn read_awaits<V, E>(read: ReadView, event: EventView<V, E>) -> bool {
    match read {
        ReadView::CatchingUp { .. } => event is CaughtUp,
        ReadView::Getting => event is Got,
        ReadView::Decoding => event is Decoded,
    }
}

/// How a read goes on: whether catching up worked does not matter; an error ends it; what is not
/// there reads as nothing.
pub open spec fn read_step<V, E>(read: ReadView, event: EventView<V, E>) -> StepView<
    ReadView,
    V,
    Result<Option<V>, E>,
> {
    match (read, event) {
        (ReadView::CatchingUp { cell }, _) => StepView::Perform {
            operation: ReadView::Getting,
            action: ActionView::Get { cell },
        },
        (ReadView::Getting, EventView::Got(Ok(Some(bytes)))) => StepView::Perform {
            operation: ReadView::Decoding,
            action: ActionView::Decode { bytes },
        },
        (ReadView::Getting, EventView::Got(Ok(None))) => StepView::Finish { result: Ok(None) },
        (ReadView::Getting, EventView::Got(Err(error))) => StepView::Finish { result: Err(error) },
        (ReadView::Decoding, EventView::Decoded(Ok(value))) => StepView::Finish {
            result: Ok(Some(value)),
        },
        (ReadView::Decoding, EventView::Decoded(Err(error))) => StepView::Finish {
            result: Err(error),
        },
        _ => arbitrary(),
    }
}

impl Read {
    /// Starts a read.
    pub fn start<V>(slot: Slot) -> (started: (Read, Action<V>))
        ensures
            started.0@ == ReadView::Getting,
            started.1@ == (ActionView::<V>::Get { cell: slot@ }),
            started.0 == Read::Getting,
            started.1 == (Action::<V>::Get { slot }),
    {
        (Read::Getting, Action::Get { slot })
    }

    /// Starts a read that catches up with the primary database first.
    pub fn start_caught_up<V>(slot: Slot) -> (started: (Read, Action<V>))
        ensures
            started.0@ == (ReadView::CatchingUp { cell: slot@ }),
            started.1@ == ActionView::<V>::CatchUp,
            started.0 == (Read::CatchingUp { slot }),
            started.1 == Action::<V>::CatchUp,
    {
        (Read::CatchingUp { slot }, Action::CatchUp)
    }

    /// Goes on with what came of the last action.
    pub fn next<V, E>(self, event: Event<V, E>) -> (step: Step<Read, V, Result<Option<V>, E>>)
        requires
            read_awaits(self@, event@),
        ensures
            step@ == read_step(self@, event@),
            match (self, event) {
                (Read::CatchingUp { slot }, Event::CaughtUp(_)) => step == (Step::<
                    Read,
                    V,
                    Result<Option<V>, E>,
                >::Perform { operation: Read::Getting, action: Action::Get { slot } }),
                (Read::Getting, Event::Got(Ok(Some(bytes)))) => step == (Step::<
                    Read,
                    V,
                    Result<Option<V>, E>,
                >::Perform { operation: Read::Decoding, action: Action::Decode { bytes } }),
                (Read::Getting, Event::Got(Ok(None))) => step == (Step::<
                    Read,
                    V,
                    Result<Option<V>, E>,
                >::Finish { result: Ok(None) }),
                (Read::Getting, Event::Got(Err(error))) => step == (Step::<
                    Read,
                    V,
                    Result<Option<V>, E>,
                >::Finish { result: Err(error) }),
                (Read::Decoding, Event::Decoded(Ok(value))) => step == (Step::<
                    Read,
                    V,
                    Result<Option<V>, E>,
                >::Finish { result: Ok(Some(value)) }),
                (Read::Decoding, Event::Decoded(Err(error))) => step == (Step::<
                    Read,
                    V,
                    Result<Option<V>, E>,
                >::Finish { result: Err(error) }),
                _ => true,
            },
    {
        match (self, event) {
            (Read::CatchingUp { slot }, Event::CaughtUp(_)) => Step::Perform {
                operation: Read::Getting,
                action: Action::Get { slot },
            },
            (Read::Getting, Event::Got(Ok(Some(bytes)))) => Step::Perform {
                operation: Read::Decoding,
                action: Action::Decode { bytes },
            },
            (Read::Getting, Event::Got(Ok(None))) => Step::Finish { result: Ok(None) },
            (Read::Getting, Event::Got(Err(error))) => Step::Finish { result: Err(error) },
            (Read::Decoding, Event::Decoded(Ok(value))) => Step::Finish { result: Ok(Some(value)) },
            (Read::Decoding, Event::Decoded(Err(error))) => Step::Finish { result: Err(error) },
            _ => unreached(),
        }
    }
}

/// Writing a value, waiting for its last action.
#[derive(Debug)]
pub enum Write {
    /// Serialising the value, before writing it to the slot.
    Encoding { slot: Slot },
    Putting,
}

/// A write, and the action it waits for.
pub enum WriteView {
    Encoding { cell: Cell },
    Putting,
}

impl View for Write {
    type V = WriteView;

    open spec fn view(&self) -> WriteView {
        match *self {
            Write::Encoding { slot } => WriteView::Encoding { cell: slot@ },
            Write::Putting => WriteView::Putting,
        }
    }
}

/// The write waits for an event of this kind.
pub open spec fn write_awaits<V, E>(write: WriteView, event: EventView<V, E>) -> bool {
    match write {
        WriteView::Encoding { .. } => event is Encoded,
        WriteView::Putting => event is Stored,
    }
}

/// How a write goes on: an error ends it.
pub open spec fn write_step<V, E>(write: WriteView, event: EventView<V, E>) -> StepView<
    WriteView,
    V,
    Result<(), E>,
> {
    match (write, event) {
        (WriteView::Encoding { cell }, EventView::Encoded(Ok(bytes))) => StepView::Perform {
            operation: WriteView::Putting,
            action: ActionView::Put { cell, bytes },
        },
        (WriteView::Encoding { .. }, EventView::Encoded(Err(error))) => StepView::Finish {
            result: Err(error),
        },
        (WriteView::Putting, EventView::Stored(result)) => StepView::Finish { result },
        _ => arbitrary(),
    }
}

impl Write {
    /// Starts a write.
    pub fn start<V>(slot: Slot, value: V) -> (started: (Write, Action<V>))
        ensures
            started.0@ == (WriteView::Encoding { cell: slot@ }),
            started.1@ == (ActionView::Encode { value }),
            started.0 == (Write::Encoding { slot }),
            started.1 == (Action::Encode { value }),
    {
        (Write::Encoding { slot }, Action::Encode { value })
    }

    /// Goes on with what came of the last action.
    pub fn next<V, E>(self, event: Event<V, E>) -> (step: Step<Write, V, Result<(), E>>)
        requires
            write_awaits(self@, event@),
        ensures
            step@ == write_step(self@, event@),
            match (self, event) {
                (Write::Encoding { slot }, Event::Encoded(Ok(bytes))) => step == (Step::<
                    Write,
                    V,
                    Result<(), E>,
                >::Perform { operation: Write::Putting, action: Action::Put { slot, bytes } }),
                (Write::Encoding { .. }, Event::Encoded(Err(error))) => step == (Step::<
                    Write,
                    V,
                    Result<(), E>,
                >::Finish { result: Err(error) }),
                (Write::Putting, Event::Stored(result)) => step == (Step::<
                    Write,
                    V,
                    Result<(), E>,
                >::Finish { result }),
                _ => true,
            },
    {
        match (self, event) {
            (Write::Encoding { slot }, Event::Encoded(Ok(bytes))) => Step::Perform {
                operation: Write::Putting,
                action: Action::Put { slot, bytes },
            },
            (Write::Encoding { .. }, Event::Encoded(Err(error))) => Step::Finish {
                result: Err(error),
            },
            (Write::Putting, Event::Stored(result)) => Step::Finish { result },
            _ => unreached(),
        }
    }
}

/// A slot is the place of its column family and key.
pub proof fn law_slot_is_its_place(slot: Slot)
    ensures
        slot@.0 == slot.family,
        slot@.1 == slot.key@,
{
}

/// What an action, an event and a step say is what they hold.
pub proof fn law_views_say_what_is_held<O: View, V, E, R>(
    action: Action<V>,
    event: Event<V, E>,
    step: Step<O, V, R>,
)
    ensures
        match action {
            Action::CatchUp => action@ == ActionView::<V>::CatchUp,
            Action::Get { slot } => action@ == (ActionView::<V>::Get {
                cell: (slot.family, slot.key@),
            }),
            Action::Put { slot, bytes } => action@ == (ActionView::<V>::Put {
                cell: (slot.family, slot.key@),
                bytes: bytes@,
            }),
            Action::Delete { slot } => action@ == (ActionView::<V>::Delete {
                cell: (slot.family, slot.key@),
            }),
            Action::Encode { value } => action@ == (ActionView::<V>::Encode { value }),
            Action::Decode { bytes } => action@ == (ActionView::<V>::Decode { bytes: bytes@ }),
        },
        match event {
            Event::CaughtUp(result) => event@ == EventView::<V, E>::CaughtUp(result),
            Event::Got(Ok(Some(bytes))) => event@ == EventView::<V, E>::Got(Ok(Some(bytes@))),
            Event::Got(Ok(None)) => event@ == EventView::<V, E>::Got(Ok(None)),
            Event::Got(Err(error)) => event@ == EventView::<V, E>::Got(Err(error)),
            Event::Stored(result) => event@ == EventView::<V, E>::Stored(result),
            Event::Deleted(result) => event@ == EventView::<V, E>::Deleted(result),
            Event::Encoded(Ok(bytes)) => event@ == EventView::<V, E>::Encoded(Ok(bytes@)),
            Event::Encoded(Err(error)) => event@ == EventView::<V, E>::Encoded(Err(error)),
            Event::Decoded(result) => event@ == EventView::<V, E>::Decoded(result),
        },
        match step {
            Step::Perform { operation, action } => step@ == (StepView::<O::V, V, R>::Perform {
                operation: operation@,
                action: action@,
            }),
            Step::Finish { result } => step@ == (StepView::<O::V, V, R>::Finish { result }),
        },
{
}

/// What a read and a write wait for is what they hold.
pub proof fn law_waiting_is_what_is_held(read: Read, write: Write)
    ensures
        match read {
            Read::CatchingUp { slot } => read@ == (ReadView::CatchingUp {
                cell: (slot.family, slot.key@),
            }),
            Read::Getting => read@ == ReadView::Getting,
            Read::Decoding => read@ == ReadView::Decoding,
        },
        match write {
            Write::Encoding { slot } => write@ == (WriteView::Encoding {
                cell: (slot.family, slot.key@),
            }),
            Write::Putting => write@ == WriteView::Putting,
        },
{
}

/// A read that is catching up goes on to get its cell, whichever column family it lies in and
/// whether or not catching up has worked.
pub proof fn law_read_goes_on_after_catching_up<V, E>(cell: Cell, outcome: Result<(), E>)
    ensures
        read_step(ReadView::CatchingUp { cell }, EventView::<V, E>::CaughtUp(outcome))
            == (StepView::<ReadView, V, Result<Option<V>, E>>::Perform {
            operation: ReadView::Getting,
            action: ActionView::Get { cell },
        }),
{
}

} // verus!
