use lucia::common::LuciaError;
use lucia::pairing::{
    pairing_outcome, read_pairing, step, Credential, PairingAction, PairingEvent, PairingOutcome,
    PairingState, PollConfig, DEVICE_TYPE,
};
use lucia::philips_hue::{ApiError, NewUserResponse, NewUserResult};

struct Run {
    state: PairingState,
    polls: usize,
    sleeps: usize,
    clock: u64,
}

fn config(interval: u64, max_duration: u64) -> PollConfig {
    match PollConfig::new(interval, max_duration) {
        Ok(config) => config,
        Err(error) => panic!("no configuration: {:?}", error),
    }
}

fn credential() -> Credential {
    Credential { username: "abc".to_string(), client_key: Some("xyz".to_string()) }
}

/// Runs the loop against a bridge that answers the n-th poll with `answer(n)`, on a clock
/// that only sleeping advances.
fn run(config: &PollConfig, answer: &dyn Fn(usize) -> PairingOutcome) -> Run {
    let (mut state, mut action) = PairingState::start();
    let mut run = Run { state: PairingState::Waiting, polls: 0, sleeps: 0, clock: 0 };
    loop {
        let event = match action {
            PairingAction::Poll => {
                run.polls += 1;
                PairingEvent::Polled { outcome: answer(run.polls), elapsed: run.clock }
            }
            PairingAction::Sleep(duration) => {
                run.sleeps += 1;
                run.clock += duration;
                PairingEvent::Slept { elapsed: run.clock }
            }
            PairingAction::Stop => break,
        };
        let next = step(config, state, event);
        state = next.0;
        action = next.1;
        assert!(run.polls + run.sleeps < 1000, "the loop does not end");
    }
    run.state = state;
    run
}

#[test]
fn pairs_after_two_sleeps_when_the_third_poll_succeeds() {
    let run = run(&config(1, 10), &|poll| {
        if poll <= 2 {
            PairingOutcome::LinkNotPressed
        } else {
            PairingOutcome::Success(credential())
        }
    });
    assert_eq!(run.state, PairingState::Paired(credential()));
    assert_eq!(run.sleeps, 2);
    assert_eq!(run.polls, 3);
    assert_eq!(run.clock, 2);
    assert_eq!(run.state.result(), Some(Ok(credential())));
}

#[test]
fn times_out_after_at_most_four_polls() {
    let run = run(&config(1, 3), &|_| PairingOutcome::LinkNotPressed);
    assert_eq!(run.state, PairingState::TimedOut);
    assert!(run.polls <= 4);
    assert_eq!(run.polls, 4);
    assert_eq!(run.clock, 4);
    assert_eq!(run.state.result(), Some(Err(LuciaError::PollingTimeout)));
}

#[test]
fn polls_at_most_once_more_than_intervals_fit_the_duration() {
    for (interval, max_duration) in [(1u64, 1u64), (3, 300), (7, 20), (5, 4), (1, 100), (10, 10)] {
        let run = run(&config(interval, max_duration), &|_| PairingOutcome::LinkNotPressed);
        assert_eq!(run.state, PairingState::TimedOut);
        assert!(run.polls as u64 <= max_duration / interval + 1);
        assert!(run.clock > max_duration);
        assert!(run.clock <= max_duration + interval);
    }
}

#[test]
fn pairs_at_the_first_poll_without_sleeping() {
    let run = run(&config(3, 300), &|_| PairingOutcome::Success(credential()));
    assert_eq!(run.state, PairingState::Paired(credential()));
    assert_eq!(run.polls, 1);
    assert_eq!(run.sleeps, 0);
}

#[test]
fn fails_at_the_first_failed_poll() {
    let run = run(&config(1, 10), &|poll| {
        if poll == 1 {
            PairingOutcome::LinkNotPressed
        } else {
            PairingOutcome::TransportError(LuciaError::HttpFailure)
        }
    });
    assert_eq!(run.state, PairingState::Failed(LuciaError::HttpFailure));
    assert_eq!(run.polls, 2);
    assert_eq!(run.sleeps, 1);
    assert_eq!(run.state.result(), Some(Err(LuciaError::HttpFailure)));
}

#[test]
fn begins_waiting_with_a_poll() {
    assert_eq!(PairingState::start(), (PairingState::Waiting, PairingAction::Poll));
    assert_eq!(PairingState::Waiting.result(), None);
}

#[test]
fn sleeps_one_interval_while_the_button_is_not_pressed() {
    let event = PairingEvent::Polled { outcome: PairingOutcome::LinkNotPressed, elapsed: 300 };
    assert_eq!(
        step(&config(3, 300), PairingState::Waiting, event),
        (PairingState::Waiting, PairingAction::Sleep(3))
    );
}

#[test]
fn times_out_once_more_than_the_duration_has_passed() {
    let late = PairingEvent::Polled { outcome: PairingOutcome::LinkNotPressed, elapsed: 301 };
    assert_eq!(
        step(&config(3, 300), PairingState::Waiting, late),
        (PairingState::TimedOut, PairingAction::Stop)
    );
    assert_eq!(
        step(&config(3, 300), PairingState::Waiting, PairingEvent::Slept { elapsed: 300 }),
        (PairingState::Waiting, PairingAction::Poll)
    );
    assert_eq!(
        step(&config(3, 300), PairingState::Waiting, PairingEvent::Slept { elapsed: 301 }),
        (PairingState::TimedOut, PairingAction::Stop)
    );
    assert_eq!(
        step(&config(3, 300), PairingState::Waiting, PairingEvent::Slept { elapsed: u64::MAX }),
        (PairingState::TimedOut, PairingAction::Stop)
    );
}

#[test]
fn takes_a_credential_and_a_failure_whatever_the_time() {
    let success =
        PairingEvent::Polled { outcome: PairingOutcome::Success(credential()), elapsed: 1000 };
    assert_eq!(
        step(&config(3, 300), PairingState::Waiting, success),
        (PairingState::Paired(credential()), PairingAction::Stop)
    );
    let failure = PairingEvent::Polled {
        outcome: PairingOutcome::TransportError(LuciaError::JsonError),
        elapsed: 0,
    };
    assert_eq!(
        step(&config(3, 300), PairingState::Waiting, failure),
        (PairingState::Failed(LuciaError::JsonError), PairingAction::Stop)
    );
}

#[test]
fn final_states_stay_as_they_are() {
    let states = [
        PairingState::Paired(credential()),
        PairingState::TimedOut,
        PairingState::Failed(LuciaError::HttpFailure),
    ];
    for state in states {
        let events = [
            PairingEvent::Polled { outcome: PairingOutcome::LinkNotPressed, elapsed: 0 },
            PairingEvent::Polled { outcome: PairingOutcome::Success(credential()), elapsed: 0 },
            PairingEvent::Slept { elapsed: 0 },
        ];
        for event in events {
            assert_eq!(
                step(&config(1, 1), state.clone(), event),
                (state.clone(), PairingAction::Stop)
            );
        }
    }
}

#[test]
fn poll_timings_must_be_positive() {
    assert_eq!(PollConfig::new(0, 300).err(), Some(LuciaError::ValueOutOfRange));
    assert_eq!(PollConfig::new(3, 0).err(), Some(LuciaError::ValueOutOfRange));
    assert_eq!(PollConfig::new(0, 0).err(), Some(LuciaError::ValueOutOfRange));
    let made = config(3, 300);
    assert_eq!(made.interval(), 3);
    assert_eq!(made.max_duration(), 300);
    assert_eq!(config(u64::MAX, 1).interval(), u64::MAX);
}

#[test]
fn only_the_link_button_error_asks_for_another_try() {
    let error = |type_| {
        Ok(NewUserResult::Error(ApiError { type_, address: None, description: None }))
    };
    assert_eq!(pairing_outcome(error(101)), PairingOutcome::LinkNotPressed);
    assert_eq!(pairing_outcome(error(1)), PairingOutcome::TransportError(LuciaError::JsonError));
    assert_eq!(pairing_outcome(error(0)), PairingOutcome::TransportError(LuciaError::JsonError));
    assert_eq!(
        pairing_outcome(Err(LuciaError::HttpFailure)),
        PairingOutcome::TransportError(LuciaError::HttpFailure)
    );
    assert_eq!(
        pairing_outcome(Ok(NewUserResult::Success(NewUserResponse {
            username: "abc".to_string(),
            client_key: None,
        }))),
        PairingOutcome::Success(Credential { username: "abc".to_string(), client_key: None })
    );
}

#[test]
fn reply_bodies_are_read_as_outcomes() {
    assert_eq!(
        read_pairing(br#"[{"error":{"type":101,"description":"link button not pressed"}}]"#),
        PairingOutcome::LinkNotPressed
    );
    assert_eq!(
        read_pairing(br#"[{"success":{"username":"abc","clientkey":"xyz"}}]"#),
        PairingOutcome::Success(credential())
    );
    assert_eq!(read_pairing(b"[]"), PairingOutcome::TransportError(LuciaError::JsonError));
    assert_eq!(read_pairing(b"<html>"), PairingOutcome::TransportError(LuciaError::JsonError));
    assert_eq!(
        read_pairing(br#"[{"error":{"type":7,"description":"invalid value"}}]"#),
        PairingOutcome::TransportError(LuciaError::JsonError)
    );
}

#[test]
fn device_label_names_the_controller() {
    assert_eq!(DEVICE_TYPE, "lucia#windy");
}
