//! Mapping from raw executor event codes to the lifecycle state of a task run.

use vstd::prelude::*;
use vstd::std_specs::convert::FromSpecImpl;

verus! {

/// What an executor reports about a task run.
#[derive(Clone, Copy, Debug, PartialEq, Eq, Structural)]
pub enum EventType {
    TaskPerform,
    TaskFinish,
    TaskTimeout,
    Unknown,
}

/// The lifecycle state of a task run, as recorded with its log.
#[derive(Clone, Copy, Debug, PartialEq, Eq, Structural)]
pub enum State {
    Running,
    NormalEnding,
    TimeoutEnding,
    Unknown,
}

/// The code that stands for an unknown event type or state.
pub const UNKNOWN_CODE: i16 = 81;

/// The event type that a raw code stands for; every code but 1, 2 and 3 is unknown.
pub open spec fn event_type_of(code: int) -> EventType {
    if code == 1 {
        EventType::TaskPerform
    } else if code == 2 {
        EventType::TaskFinish
    } else if code == 3 {
        EventType::TaskTimeout
    } else {
        EventType::Unknown
    }
}

/// The lifecycle state that an event type leads to.
pub open spec fn state_of(event: EventType) -> State {
    match event {
        EventType::TaskPerform => State::Running,
        EventType::TaskFinish => State::NormalEnding,
        EventType::TaskTimeout => State::TimeoutEnding,
        EventType::Unknown => State::Unknown,
    }
}

/// The code under which an event type travels.
pub open spec fn event_code(event: EventType) -> i16 {
    match event {
        EventType::TaskPerform => 1,
        EventType::TaskFinish => 2,
        EventType::TaskTimeout => 3,
        EventType::Unknown => UNKNOWN_CODE,
    }
}

/// The code under which a state is recorded: that of the event type that leads to it.
pub open spec fn state_code(state: State) -> i16 {
    match state {
        State::Running => 1,
        State::NormalEnding => 2,
        State::TimeoutEnding => 3,
        State::Unknown => UNKNOWN_CODE,
    }
}

impl From<i16> for EventType {
    fn from(value: i16) -> (event: EventType) {
        match value {
            1 => EventType::TaskPerform,
            2 => EventType::TaskFinish,
            3 => EventType::TaskTimeout,
            _ => EventType::Unknown,
        }
    }
}

impl FromSpecImpl<i16> for EventType {
    open spec fn obeys_from_spec() -> bool {
        true
    }

    open spec fn from_spec(value: i16) -> EventType {
        event_type_of(value as int)
    }
}

impl From<EventType> for State {
    fn from(value: EventType) -> (state: State) {
        match value {
            EventType::TaskPerform => State::Running,
            EventType::TaskFinish => State::NormalEnding,
            EventType::TaskTimeout => State::TimeoutEnding,
            EventType::Unknown => State::Unknown,
        }
    }
}

impl FromSpecImpl<EventType> for State {
    open spec fn obeys_from_spec() -> bool {
        true
    }

    open spec fn from_spec(value: EventType) -> State {
        state_of(value)
    }
}

impl EventType {
    /// The event type that a code of any size stands for. A code that is not
    /// known is no error: it stands for the unknown event type.
    pub fn from_code(code: i64) -> (event: EventType)
        ensures
            event == event_type_of(code as int),
    {
        if code == 1 {
            EventType::TaskPerform
        } else if code == 2 {
            EventType::TaskFinish
        } else if code == 3 {
            EventType::TaskTimeout
        } else {
            EventType::Unknown
        }
    }

    /// The code under which this event type travels.
    pub fn code(self) -> (code: i16)
        ensures
            code == event_code(self),
    {
        match self {
            EventType::TaskPerform => 1,
            EventType::TaskFinish => 2,
            EventType::TaskTimeout => 3,
            EventType::Unknown => UNKNOWN_CODE,
        }
    }
}

impl State {
    /// The code under which this state is recorded.
    pub fn code(self) -> (code: i16)
        ensures
            code == state_code(self),
    {
        match self {
            State::Running => 1,
            State::NormalEnding => 2,
            State::TimeoutEnding => 3,
            State::Unknown => UNKNOWN_CODE,
        }
    }
}

/// The lifecycle state that an event type leads to.
pub fn classify(event_type: EventType) -> (state: State)
    ensures
        state == state_of(event_type),
{
    State::from(event_type)
}

/// The lifecycle state that a raw event code leads to.
pub fn classify_code(code: i64) -> (state: State)
    ensures
        state == state_of(event_type_of(code as int)),
{
    classify(EventType::from_code(code))
}

/// The three known codes lead to running, normal ending and timeout ending,
/// in that order, and every other code leads to the unknown state.
pub proof fn lemma_classification(code: int)
    ensures
        code == 1 ==> state_of(event_type_of(code)) == State::Running,
        code == 2 ==> state_of(event_type_of(code)) == State::NormalEnding,
        code == 3 ==> state_of(event_type_of(code)) == State::TimeoutEnding,
        !(1 <= code <= 3) ==> state_of(event_type_of(code)) == State::Unknown,
{
}

/// A code that an event type travels under stands for that event type, and
/// the state it leads to is recorded under the same code.
pub proof fn lemma_codes_agree(event: EventType)
    ensures
        event_type_of(event_code(event) as int) == event,
        state_code(state_of(event)) == event_code(event),
{
}

} // verus!
