use trycmd::{Capture, Event, ExitClass, Outcome, State};

fn run(events: Vec<Event>) -> State {
    events.into_iter().fold(State::Created, |state, event| state.step(event))
}

#[test]
fn capture_is_selected_by_the_flag() {
    assert_eq!(Capture::select(true), Capture::Merged);
    assert_eq!(Capture::select(false), Capture::Separated);
    assert_eq!(Capture::Merged.tasks(), 2);
    assert_eq!(Capture::Separated.tasks(), 3);
}

#[test]
fn execution_that_exits_with_zero_is_a_success() {
    let state = run(vec![Event::Started, Event::Exited(Some(0))]);
    assert_eq!(state, State::Completed(0));
    assert!(state.is_terminal());
    assert_eq!(state.classify(), Some(ExitClass::Success));
}

#[test]
fn execution_that_exits_with_a_code_is_a_failure_with_that_code() {
    for code in [1, -1, 255, i32::MIN, i32::MAX] {
        let state = run(vec![Event::Started, Event::Exited(Some(code))]);
        assert_eq!(state, State::Completed(code));
        assert_eq!(state.classify(), Some(ExitClass::Failed(code)));
    }
}

#[test]
fn execution_ended_by_a_signal_is_interrupted() {
    let state = run(vec![Event::Started, Event::Exited(None)]);
    assert_eq!(state, State::Killed);
    assert_eq!(state.classify(), Some(ExitClass::Interrupted));
}

#[test]
fn execution_that_timed_out_is_interrupted_whatever_follows() {
    for later in [
        vec![],
        vec![Event::Exited(Some(0))],
        vec![Event::Exited(Some(1)), Event::Started],
        vec![Event::Exited(None), Event::TimedOut, Event::StartFailed("x".into())],
    ] {
        let mut events = vec![Event::Started, Event::TimedOut];
        events.extend(later);
        let state = run(events);
        assert_eq!(state, State::Killed);
        assert_eq!(state.classify(), Some(ExitClass::Interrupted));
    }
}

#[test]
fn execution_that_did_not_start_has_no_class() {
    let state = run(vec![Event::StartFailed("no such file".into())]);
    assert_eq!(state, State::SpawnFailed("no such file".into()));
    assert!(state.is_terminal());
    assert_eq!(state.classify(), None);
    assert_eq!(state.step(Event::Started), State::SpawnFailed("no such file".into()));
}

#[test]
fn execution_that_is_not_over_has_no_class() {
    assert_eq!(State::Created.classify(), None);
    assert_eq!(State::Spawned.classify(), None);
    assert!(!State::Created.is_terminal());
    assert!(!State::Spawned.is_terminal());
}

#[test]
fn events_out_of_turn_change_nothing() {
    assert_eq!(State::Created.step(Event::Exited(Some(0))), State::Created);
    assert_eq!(State::Created.step(Event::TimedOut), State::Created);
    assert_eq!(State::Spawned.step(Event::Started), State::Spawned);
    assert_eq!(State::Spawned.step(Event::StartFailed("e".into())), State::Spawned);
    assert_eq!(State::Completed(2).step(Event::TimedOut), State::Completed(2));
}

#[test]
fn outcome_of_separated_capture_has_both_buffers() {
    let outcome =
        Outcome::new(Capture::Separated, &State::Completed(2), vec![1], vec![2], Some("/w".into()));
    assert_eq!(
        outcome,
        Some(Outcome {
            stdout: vec![1],
            stderr: Some(vec![2]),
            class: ExitClass::Failed(2),
            cwd: Some("/w".into()),
        })
    );
}

#[test]
fn outcome_of_merged_capture_has_one_buffer() {
    let outcome = Outcome::new(Capture::Merged, &State::Killed, vec![1, 2], vec![], None);
    assert_eq!(
        outcome,
        Some(Outcome { stdout: vec![1, 2], stderr: None, class: ExitClass::Interrupted, cwd: None })
    );
    let outcome = Outcome::new(Capture::Merged, &State::Completed(0), vec![], vec![9], None);
    assert_eq!(
        outcome,
        Some(Outcome { stdout: vec![], stderr: None, class: ExitClass::Success, cwd: None })
    );
}

#[test]
fn outcome_needs_a_finished_execution() {
    for state in [State::Created, State::Spawned, State::SpawnFailed("e".into())] {
        assert_eq!(Outcome::new(Capture::Separated, &state, vec![1], vec![2], None), None);
    }
}
