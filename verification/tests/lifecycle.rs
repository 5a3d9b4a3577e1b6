use delicate::lifecycle::classify;
use delicate::lifecycle::classify_code;
use delicate::lifecycle::EventType;
use delicate::lifecycle::State;
use delicate::lifecycle::UNKNOWN_CODE;

#[test]
fn known_event_types_have_their_states() {
    assert_eq!(classify(EventType::TaskPerform), State::Running);
    assert_eq!(classify(EventType::TaskFinish), State::NormalEnding);
    assert_eq!(classify(EventType::TaskTimeout), State::TimeoutEnding);
    assert_eq!(classify(EventType::Unknown), State::Unknown);
}

#[test]
fn known_codes_have_their_states() {
    assert_eq!(classify_code(1), State::Running);
    assert_eq!(classify_code(2), State::NormalEnding);
    assert_eq!(classify_code(3), State::TimeoutEnding);
}

#[test]
fn every_other_code_is_unknown() {
    for code in [0i64, 4, 5, 80, 81, 82, -1, -3, 256 + 1, 65536 + 2, i64::MAX, i64::MIN] {
        assert_eq!(EventType::from_code(code), EventType::Unknown);
        assert_eq!(classify_code(code), State::Unknown);
    }
    for code in i16::MIN..=i16::MAX {
        let expected = match code {
            1 => EventType::TaskPerform,
            2 => EventType::TaskFinish,
            3 => EventType::TaskTimeout,
            _ => EventType::Unknown,
        };
        assert_eq!(EventType::from(code), expected);
        assert_eq!(EventType::from_code(code as i64), expected);
    }
}

#[test]
fn states_come_from_event_types() {
    assert_eq!(State::from(EventType::TaskPerform), State::Running);
    assert_eq!(State::from(EventType::TaskFinish), State::NormalEnding);
    assert_eq!(State::from(EventType::TaskTimeout), State::TimeoutEnding);
    assert_eq!(State::from(EventType::Unknown), State::Unknown);
    let state: State = EventType::from(2i16).into();
    assert_eq!(state, State::NormalEnding);
}

#[test]
fn codes_of_event_types_and_states() {
    assert_eq!(EventType::TaskPerform.code(), 1);
    assert_eq!(EventType::TaskFinish.code(), 2);
    assert_eq!(EventType::TaskTimeout.code(), 3);
    assert_eq!(EventType::Unknown.code(), 81);
    assert_eq!(State::Running.code(), 1);
    assert_eq!(State::NormalEnding.code(), 2);
    assert_eq!(State::TimeoutEnding.code(), 3);
    assert_eq!(State::Unknown.code(), 81);
    assert_eq!(UNKNOWN_CODE, 81);
    for event in [
        EventType::TaskPerform,
        EventType::TaskFinish,
        EventType::TaskTimeout,
        EventType::Unknown,
    ] {
        assert_eq!(EventType::from(event.code()), event);
        assert_eq!(classify(event).code(), event.code());
    }
}
