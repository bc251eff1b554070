//! A test of the connection to the database.

use crate::column_family::ColumnFamily;
use crate::operation::{Action, ActionView, Cell, Event, EventView, Slot, Step, StepView};
use vstd::pervasive::unreached;
use vstd::prelude::*;
use vstd::string::StrSliceExecFns;
use vstd::utf8::encode_utf8;

verus! {

/// The place that a connection test writes and empties.
pub open spec fn test_cell() -> Cell {
    (ColumnFamily::Default, encode_utf8("test"@))
}

fn test_slot() -> (slot: Slot)
    ensures
        slot@ == test_cell(),
        slot.family == ColumnFamily::Default,
        slot.key@ == encode_utf8("test"@),
{
    Slot { family: ColumnFamily::Default, key: "test".as_bytes_vec() }
}

/// Writing a test value and deleting it again.
#[derive(Debug)]
pub enum TestConn {
    Putting,
    Deleting,
}

impl View for TestConn {
    type V = TestConn;

    open spec fn view(&self) -> TestConn {
        *self
    }
}

/// The test waits for an event of this kind.
pub open spec fn test_conn_awaits<V, E>(test: TestConn, event: EventView<V, E>) -> bool {
    match test {
        TestConn::Putting => event is Stored,
        TestConn::Deleting => event is Deleted,
    }
}

/// How a test goes on: an error ends it.
pub open spec fn test_conn_step<V, E>(test: TestConn, event: EventView<V, E>) -> StepView<
    TestConn,
    V,
    Result<(), E>,
> {
    match (test, event) {
        (TestConn::Putting, EventView::Stored(Ok(_))) => StepView::Perform {
            operation: TestConn::Deleting,
            action: ActionView::Delete { cell: test_cell() },
        },
        (TestConn::Putting, EventView::Stored(Err(error))) => StepView::Finish {
            result: Err(error),
        },
        (TestConn::Deleting, EventView::Deleted(result)) => StepView::Finish { result },
        _ => arbitrary(),
    }
}

impl TestConn {
    /// Starts a test.
    pub fn start<V>() -> (started: (TestConn, Action<V>))
        ensures
            started.0@ == TestConn::Putting,
            started.1@ == (ActionView::<V>::Put {
                cell: test_cell(),
                bytes: encode_utf8("value"@),
            }),
            started.0 == TestConn::Putting,
            started.1 matches Action::Put { slot, bytes } && slot.family == ColumnFamily::Default
                && slot.key@ == encode_utf8("test"@) && bytes@ == encode_utf8("value"@),
    {
        (TestConn::Putting, Action::Put { slot: test_slot(), bytes: "value".as_bytes_vec() })
    }

    /// Goes on with what came of the last action.
    pub fn next<V, E>(self, event: Event<V, E>) -> (step: Step<TestConn, V, Result<(), E>>)
        requires
            test_conn_awaits(self@, event@),
        ensures
            step@ == test_conn_step(self@, event@),
            match (self, event) {
                (TestConn::Putting, Event::Stored(Ok(_))) => step matches Step::Perform {
                    operation,
                    action: Action::Delete { slot },
                } && operation == TestConn::Deleting && slot.family == ColumnFamily::Default
                    && slot.key@ == encode_utf8("test"@),
                (TestConn::Putting, Event::Stored(Err(error))) => step == (Step::<
                    TestConn,
                    V,
                    Result<(), E>,
                >::Finish { result: Err(error) }),
                (TestConn::Deleting, Event::Deleted(result)) => step == (Step::<
                    TestConn,
                    V,
                    Result<(), E>,
                >::Finish { result }),
                _ => true,
            },
    {
        match (self, event) {
            (TestConn::Putting, Event::Stored(Ok(_))) => Step::Perform {
                operation: TestConn::Deleting,
                action: Action::Delete { slot: test_slot() },
            },
            (TestConn::Putting, Event::Stored(Err(error))) => Step::Finish { result: Err(error) },
            (TestConn::Deleting, Event::Deleted(result)) => Step::Finish { result },
            _ => unreached(),
        }
    }
}

} // verus!
