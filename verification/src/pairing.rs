//! Pairing with a bridge: the decisions of the loop that polls the bridge
//! until its link button has been pressed.
//!
//! The loop itself runs in the caller, which polls and sleeps as it is told
//! and reports back what happened and how much time has passed since it
//! began.

use crate::common::LuciaError;
use crate::json::json_parse;
use crate::philips_hue::{
    spec_read_new_user, ApiClient, NewUserResult, LINK_BUTTON_NOT_PRESSED,
};
use vstd::prelude::*;

verus! {

/// The device label that the controller pairs under.
pub const DEVICE_TYPE: &'static str = "lucia#windy";

/// What a successful pairing yields, and every later call needs.
#[derive(Clone, Debug, PartialEq, Eq)]
pub struct Credential {
    pub username: String,
    pub client_key: Option<String>,
}

/// The outcome of one request for a new user.
#[derive(Clone, Debug, PartialEq, Eq)]
pub enum PairingOutcome {
    /// The bridge issued a credential.
    Success(Credential),
    /// The link button has not been pressed yet: worth another try.
    LinkNotPressed,
    /// The bridge was not reached, or answered something else.
    TransportError(LuciaError),
}

/// How often and how long to poll, in a unit of time of the caller's
/// choice. Both are positive.
#[derive(Clone, Copy, Debug, PartialEq, Eq)]
pub struct PollConfig {
    interval: u64,
    max_duration: u64,
}

/// Where pairing stands.
#[derive(Clone, Debug, PartialEq, Eq)]
pub enum PairingState {
    /// Still polling.
    Waiting,
    /// Done: the bridge issued this credential.
    Paired(Credential),
    /// Done: the deadline passed.
    TimedOut,
    /// Done: a poll failed.
    Failed(LuciaError),
}

/// What the caller reports.
#[derive(Clone, Debug, PartialEq, Eq)]
pub enum PairingEvent {
    /// A poll came back, `elapsed` after the loop began.
    Polled { outcome: PairingOutcome, elapsed: u64 },
    /// A sleep ended, `elapsed` after the loop began.
    Slept { elapsed: u64 },
}

/// What the caller does next.
#[derive(Clone, Copy, Debug, PartialEq, Eq, Structural)]
pub enum PairingAction {
    /// Ask the bridge for a new user.
    Poll,
    /// Sleep for this long.
    Sleep(u64),
    /// Stop: the state is final.
    Stop,
}

/// The outcome that the reply to a request for a new user amounts to. Among
/// error records only the one for the link button asks for another try.
pub open spec fn spec_pairing_outcome(reply: Result<NewUserResult, LuciaError>) -> PairingOutcome {
    match reply {
        Ok(NewUserResult::Success(response)) => PairingOutcome::Success(
            Credential { username: response.username, client_key: response.client_key },
        ),
        Ok(NewUserResult::Error(error)) => if error.type_ == LINK_BUTTON_NOT_PRESSED {
            PairingOutcome::LinkNotPressed
        } else {
            PairingOutcome::TransportError(LuciaError::JsonError)
        },
        Err(error) => PairingOutcome::TransportError(error),
    }
}

/// The outcome that the reply to a request for a new user amounts to.
pub fn pairing_outcome(reply: Result<NewUserResult, LuciaError>) -> (outcome: PairingOutcome)
    ensures
        outcome == spec_pairing_outcome(reply),
{
    match reply {
        Ok(NewUserResult::Success(response)) => PairingOutcome::Success(
            Credential { username: response.username, client_key: response.client_key },
        ),
        Ok(NewUserResult::Error(error)) => if error.type_ == LINK_BUTTON_NOT_PRESSED {
            PairingOutcome::LinkNotPressed
        } else {
            PairingOutcome::TransportError(LuciaError::JsonError)
        },
        Err(error) => PairingOutcome::TransportError(error),
    }
}

/// Reads the body of a reply to a request for a new user as an outcome.
pub fn read_pairing(body: &[u8]) -> (outcome: PairingOutcome)
    ensures
        outcome == spec_pairing_outcome(spec_read_new_user(json_parse(body@))),
{
    pairing_outcome(ApiClient::read_new_user(body))
}

impl PollConfig {
    #[verifier::type_invariant]
    spec fn positive(&self) -> bool {
        self.interval > 0 && self.max_duration > 0
    }

    /// The time to sleep between two polls.
    pub closed spec fn spec_interval(&self) -> u64 {
        self.interval
    }

    /// The time after which pairing gives up.
    pub closed spec fn spec_max_duration(&self) -> u64 {
        self.max_duration
    }

    /// A configuration, if both times are positive.
    pub fn new(interval: u64, max_duration: u64) -> (config: Result<PollConfig, LuciaError>)
        ensures
            match config {
                Ok(made) => interval > 0 && max_duration > 0 && made.spec_interval() == interval
                    && made.spec_max_duration() == max_duration,
                Err(error) => error == LuciaError::ValueOutOfRange && (interval == 0
                    || max_duration == 0),
            },
    {
        if interval > 0 && max_duration > 0 {
            Ok(PollConfig { interval, max_duration })
        } else {
            Err(LuciaError::ValueOutOfRange)
        }
    }

    /// The time to sleep between two polls, which is positive.
    pub fn interval(&self) -> (interval: u64)
        ensures
            interval == self.spec_interval(),
            interval > 0,
    {
        proof {
            use_type_invariant(self);
        }
        self.interval
    }

    /// The time after which pairing gives up, which is positive.
    pub fn max_duration(&self) -> (max_duration: u64)
        ensures
            max_duration == self.spec_max_duration(),
            max_duration > 0,
    {
        proof {
            use_type_invariant(self);
        }
        self.max_duration
    }
}

impl PairingState {
    /// Whether pairing is over.
    pub open spec fn is_final(self) -> bool {
        !(self is Waiting)
    }

    /// What pairing came to: nothing while it waits.
    pub open spec fn spec_result(self) -> Option<Result<Credential, LuciaError>> {
        match self {
            PairingState::Waiting => None,
            PairingState::Paired(credential) => Some(Ok(credential)),
            PairingState::TimedOut => Some(Err(LuciaError::PollingTimeout)),
            PairingState::Failed(error) => Some(Err(error)),
        }
    }

    /// The state that pairing begins in. The caller polls first.
    pub fn start() -> (begin: (PairingState, PairingAction))
        ensures
            begin == (PairingState::Waiting, PairingAction::Poll),
    {
        (PairingState::Waiting, PairingAction::Poll)
    }

    /// What pairing came to: nothing while it waits.
    pub fn result(self) -> (result: Option<Result<Credential, LuciaError>>)
        ensures
            result == self.spec_result(),
    {
        match self {
            PairingState::Waiting => None,
            PairingState::Paired(credential) => Some(Ok(credential)),
            PairingState::TimedOut => Some(Err(LuciaError::PollingTimeout)),
            PairingState::Failed(error) => Some(Err(error)),
        }
    }
}

/// The state and action that follow an event.
///
/// While waiting, a credential ends pairing with success and a failed poll
/// ends it with that failure, whatever the time. A poll that found the link
/// button not pressed, and the end of a sleep, end pairing with a timeout once
/// more than the maximum duration has elapsed; before that the first is
/// followed by a sleep of one interval and the second by a poll. A final
/// state stays as it is.
pub open spec fn spec_step(
    interval: u64,
    max_duration: u64,
    state: PairingState,
    event: PairingEvent,
) -> (PairingState, PairingAction) {
    match state {
        PairingState::Waiting => match event {
            PairingEvent::Polled { outcome: PairingOutcome::Success(credential), elapsed } => (
                PairingState::Paired(credential),
                PairingAction::Stop,
            ),
            PairingEvent::Polled { outcome: PairingOutcome::TransportError(error), elapsed } => (
                PairingState::Failed(error),
                PairingAction::Stop,
            ),
            PairingEvent::Polled { outcome: PairingOutcome::LinkNotPressed, elapsed } => if elapsed
                > max_duration {
                (PairingState::TimedOut, PairingAction::Stop)
            } else {
                (PairingState::Waiting, PairingAction::Sleep(interval))
            },
            PairingEvent::Slept { elapsed } => if elapsed > max_duration {
                (PairingState::TimedOut, PairingAction::Stop)
            } else {
                (PairingState::Waiting, PairingAction::Poll)
            },
        },
        _ => (state, PairingAction::Stop),
    }
}

/// Decides what follows an event.
pub fn step(config: &PollConfig, state: PairingState, event: PairingEvent) -> (next: (
    PairingState,
    PairingAction,
))
    ensures
        next == spec_step(config.spec_interval(), config.spec_max_duration(), state, event),
{
    match state {
        PairingState::Waiting => match event {
            PairingEvent::Polled { outcome: PairingOutcome::Success(credential), elapsed } => (
                PairingState::Paired(credential),
                PairingAction::Stop,
            ),
            PairingEvent::Polled { outcome: PairingOutcome::TransportError(error), elapsed } => (
                PairingState::Failed(error),
                PairingAction::Stop,
            ),
            PairingEvent::Polled { outcome: PairingOutcome::LinkNotPressed, elapsed } => if elapsed
                > config.max_duration() {
                (PairingState::TimedOut, PairingAction::Stop)
            } else {
                (PairingState::Waiting, PairingAction::Sleep(config.interval()))
            },
            PairingEvent::Slept { elapsed } => if elapsed > config.max_duration() {
                (PairingState::TimedOut, PairingAction::Stop)
            } else {
                (PairingState::Waiting, PairingAction::Poll)
            },
        },
        PairingState::Paired(credential) => (PairingState::Paired(credential), PairingAction::Stop),
        PairingState::TimedOut => (PairingState::TimedOut, PairingAction::Stop),
        PairingState::Failed(error) => (PairingState::Failed(error), PairingAction::Stop),
    }
}

/// A credential is never made up: pairing reaches `Paired` only on a poll
/// that succeeded with that credential, or by staying there.
pub proof fn lemma_credential_only_from_success(
    interval: u64,
    max_duration: u64,
    state: PairingState,
    event: PairingEvent,
)
    ensures
        spec_step(interval, max_duration, state, event).0 matches PairingState::Paired(credential)
            ==> state == PairingState::Paired(credential) || (state is Waiting && event
            == (PairingEvent::Polled {
            outcome: PairingOutcome::Success(credential),
            elapsed: event->Polled_elapsed,
        })),
{
}

/// A final state is never left, and the caller is told to stop exactly when
/// the state that follows is final.
pub proof fn lemma_final_states_absorb(
    interval: u64,
    max_duration: u64,
    state: PairingState,
    event: PairingEvent,
)
    ensures
        state.is_final() ==> spec_step(interval, max_duration, state, event) == (
            state,
            PairingAction::Stop,
        ),
        spec_step(interval, max_duration, state, event).1 == PairingAction::Stop <==> spec_step(
            interval,
            max_duration,
            state,
            event,
        ).0.is_final(),
{
}

/// A failed poll is never retried: whatever the time, pairing fails with the
/// error of the poll.
pub proof fn lemma_transport_error_is_final(
    interval: u64,
    max_duration: u64,
    error: LuciaError,
    elapsed: u64,
)
    ensures
        spec_step(
            interval,
            max_duration,
            PairingState::Waiting,
            PairingEvent::Polled { outcome: PairingOutcome::TransportError(error), elapsed },
        ) == (PairingState::Failed(error), PairingAction::Stop),
{
}

/// The state that the events lead to from the start, taken in order.
pub open spec fn spec_run(interval: u64, max_duration: u64, events: Seq<PairingEvent>) -> PairingState
    decreases events.len(),
{
    if events.len() == 0 {
        PairingState::Waiting
    } else {
        spec_step(
            interval,
            max_duration,
            spec_run(interval, max_duration, events.drop_last()),
            events.last(),
        ).0
    }
}

/// Whether the events are those of a loop that the bridge never answers: a
/// poll that finds the link button not pressed and a sleep take turns, and
/// every sleep lasts at least one interval, so that the `n`-th sleep ends no
/// earlier than `n` intervals after the loop began.
pub open spec fn unanswered(interval: u64, events: Seq<PairingEvent>) -> bool {
    forall|i: int|
        0 <= i < events.len() ==> match #[trigger] events[i] {
            PairingEvent::Polled { outcome, elapsed } => i % 2 == 0 && outcome
                == PairingOutcome::LinkNotPressed,
            PairingEvent::Slept { elapsed } => i % 2 == 1 && elapsed >= ((i + 1) / 2) * interval,
        }
}

/// The polls are bounded: where every sleep lasts at least one interval, the
/// poll after the `sleeps`-th sleep is made only while `sleeps` intervals fit
/// the maximum duration. With the first poll that makes at most
/// `max_duration / interval + 1` polls.
pub proof fn lemma_polls_are_bounded(interval: u64, max_duration: u64, sleeps: nat, elapsed: u64)
    requires
        interval > 0,
        elapsed >= sleeps * interval,
        spec_step(
            interval,
            max_duration,
            PairingState::Waiting,
            PairingEvent::Slept { elapsed },
        ).1 == PairingAction::Poll,
    ensures
        sleeps <= max_duration / interval,
{
    assert(sleeps <= max_duration / interval) by (nonlinear_arith)
        requires
            interval > 0,
            sleeps * interval <= max_duration,
    ;
}

/// A loop that the bridge never answers neither pairs nor fails.
pub proof fn lemma_unanswered_waits_or_times_out(
    interval: u64,
    max_duration: u64,
    events: Seq<PairingEvent>,
)
    requires
        unanswered(interval, events),
    ensures
        spec_run(interval, max_duration, events) is Waiting || spec_run(
            interval,
            max_duration,
            events,
        ) is TimedOut,
    decreases events.len(),
{
    if events.len() > 0 {
        let before = events.drop_last();
        assert forall|i: int| 0 <= i < before.len() implies match #[trigger] before[i] {
            PairingEvent::Polled { outcome, elapsed } => i % 2 == 0 && outcome
                == PairingOutcome::LinkNotPressed,
            PairingEvent::Slept { elapsed } => i % 2 == 1 && elapsed >= ((i + 1) / 2) * interval,
        } by {
            assert(before[i] == events[i]);
        }
        lemma_unanswered_waits_or_times_out(interval, max_duration, before);
    }
}

/// A loop that the bridge never answers times out, and does so before it
/// polls more than `max_duration / interval + 1` times: the sleep after that
/// many polls ends past the maximum duration, and no event after it changes
/// the state.
pub proof fn lemma_unanswered_times_out(
    interval: u64,
    max_duration: u64,
    events: Seq<PairingEvent>,
)
    requires
        interval > 0,
        unanswered(interval, events),
        events.len() >= 2 * (max_duration / interval + 1),
    ensures
        spec_run(interval, max_duration, events) is TimedOut,
    decreases events.len(),
{
    let polls = max_duration / interval + 1;
    let before = events.drop_last();
    let last = events[events.len() - 1];
    assert forall|i: int| 0 <= i < before.len() implies match #[trigger] before[i] {
        PairingEvent::Polled { outcome, elapsed } => i % 2 == 0 && outcome
            == PairingOutcome::LinkNotPressed,
        PairingEvent::Slept { elapsed } => i % 2 == 1 && elapsed >= ((i + 1) / 2) * interval,
    } by {
        assert(before[i] == events[i]);
    }
    if events.len() > 2 * polls {
        lemma_unanswered_times_out(interval, max_duration, before);
    } else {
        lemma_unanswered_waits_or_times_out(interval, max_duration, before);
        assert(events.len() - 1 == 2 * polls - 1);
        assert(last is Slept);
        let elapsed = last->Slept_elapsed;
        assert(elapsed >= polls * interval);
        assert(polls * interval > max_duration) by (nonlinear_arith)
            requires
                interval > 0,
                polls == max_duration / interval + 1,
        ;
    }
}

} // verus!
