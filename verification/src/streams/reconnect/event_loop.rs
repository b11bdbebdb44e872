//! The loop that keeps a stream connected: what it waits for, what each signal
//! makes of it, and what its consumer sees.
//!
//! The loop performs nothing itself. It tells its driver the next [`Command`],
//! and the driver hands back the [`Signal`] that came of it.

use std::time::Duration;
use vstd::prelude::*;

use super::stream::{Elapsed, ReconnectionBackoffPolicy, ReconnectionState};
use super::Event;
use crate::time::duration_nanos;

verus! {

/// What the loop waits for.
#[derive(Debug, Copy, Clone, PartialEq, Eq, Structural)]
pub enum Step {
    /// The outcome of an attempt to initialise a stream.
    Initialise,
    /// The end of a sleep of so many milliseconds.
    Sleep(u64),
    /// What the current stream delivers next.
    Receive,
}

/// What the driver of the loop has to do next.
#[derive(Debug, PartialEq, Eq)]
pub enum Command {
    /// Attempt to initialise a stream.
    Initialise,
    /// Sleep.
    Sleep(Duration),
    /// Poll the current stream, for no longer than `idle_max` if there is one.
    Receive { idle_max: Option<Duration> },
}

/// What came of polling the current stream.
#[derive(Debug, PartialEq, Eq)]
pub enum Received<T, E> {
    /// An item.
    Item(T),
    /// An error, which the stream does or does not survive.
    Error { error: E, terminal: bool },
    /// Silence until the idle limit.
    Idle,
    /// The end of the stream.
    Ended,
}

impl<T, E> Received<T, E> {
    /// Whether the stream is over.
    pub open spec fn closes(self) -> bool {
        match self {
            Received::Item(_) => false,
            Received::Error { error: _, terminal } => terminal,
            Received::Idle => true,
            Received::Ended => true,
        }
    }

    /// What the consumer sees.
    pub open spec fn event<Origin>(self, origin: Origin) -> Event<Origin, Result<T, E>> {
        match self {
            Received::Item(item) => Event::Item(Ok(item)),
            Received::Error { error, terminal: false } => Event::Item(Err(error)),
            _ => Event::Reconnecting(origin),
        }
    }
}

/// What polling a stream came to, given whether its error, if it is one, is
/// `terminal`.
pub open spec fn received_spec<T, E>(
    polled: Option<Result<Result<T, E>, Elapsed>>,
    terminal: bool,
) -> Received<T, E> {
    match polled {
        None => Received::Ended,
        Some(Err(_)) => Received::Idle,
        Some(Ok(Ok(item))) => Received::Item(item),
        Some(Ok(Err(error))) => Received::Error { error, terminal },
    }
}

/// Sort out what polling a stream came to: `None` is its end, an [`Elapsed`]
/// the idle limit, and `is_terminal` says which errors end it.
pub fn received<T, E, FnIsTerminal: Fn(&E) -> bool>(
    polled: Option<Result<Result<T, E>, Elapsed>>,
    is_terminal: FnIsTerminal,
) -> (received: Received<T, E>)
    requires
        polled matches Some(Ok(Err(error))) ==> call_requires(is_terminal, (&error,)),
    ensures
        !(polled matches Some(Ok(Err(_)))) ==> received == received_spec(polled, false),
        polled matches Some(Ok(Err(error))) ==> exists|terminal: bool|
            {
                &&& #[trigger] call_ensures(is_terminal, (&error,), terminal)
                &&& received == received_spec(polled, terminal)
                &&& received == (Received::<T, E>::Error { error, terminal })
            },
        polled is None ==> received == Received::<T, E>::Ended,
        polled matches Some(Err(_)) ==> received == Received::<T, E>::Idle,
        polled matches Some(Ok(Ok(item))) ==> received == Received::<T, E>::Item(item),
{
    match polled {
        None => Received::Ended,
        Some(Err(_)) => Received::Idle,
        Some(Ok(Ok(item))) => Received::Item(item),
        Some(Ok(Err(error))) => {
            let terminal: bool = is_terminal(&error);
            Received::Error { error, terminal }
        },
    }
}

/// What came of a command.
#[derive(Debug, PartialEq, Eq)]
pub enum Signal<T, E> {
    /// A stream was initialised.
    Initialised,
    /// An attempt to initialise a stream failed.
    InitialiseFailed,
    /// The sleep is over.
    Slept,
    /// The current stream was polled.
    Received(Received<T, E>),
}

impl<T, E> Signal<T, E> {
    /// Whether this is the outcome of an attempt to initialise a stream.
    pub open spec fn ends_attempt(self) -> bool {
        self is Initialised || self is InitialiseFailed
    }

    /// Whether a stream is over.
    pub open spec fn ends_stream(self) -> bool {
        self matches Signal::Received(received) && received.closes()
    }
}

/// The state of a reconnecting stream.
#[derive(Debug)]
pub struct ReconnectLoop<Origin> {
    pub backoff: ReconnectionState,
    pub idle_max: Option<Duration>,
    pub origin: Origin,
    pub step: Step,
}

impl<Origin> ReconnectLoop<Origin> {
    /// Whether `signal` can come of what the loop waits for. A failed attempt
    /// also has to leave the backoff within `u64`.
    pub open spec fn accepts<T, E>(self, signal: Signal<T, E>) -> bool {
        match (self.step, signal) {
            (Step::Initialise, Signal::Initialised) => true,
            (Step::Initialise, Signal::InitialiseFailed) => self.backoff.can_multiply(),
            (Step::Sleep(_), Signal::Slept) => true,
            (Step::Receive, Signal::Received(received)) => received is Idle
                ==> self.idle_max is Some,
            _ => false,
        }
    }

    /// What the loop waits for after `signal`.
    pub open spec fn next_step<T, E>(self, signal: Signal<T, E>) -> Step {
        match signal {
            Signal::Initialised => Step::Receive,
            Signal::InitialiseFailed => Step::Sleep(self.backoff.sleep_ms_spec()),
            Signal::Slept => Step::Initialise,
            Signal::Received(received) => if received.closes() {
                Step::Initialise
            } else {
                Step::Receive
            },
        }
    }

    /// The backoff after `signal`: only attempts change it.
    pub open spec fn next_backoff<T, E>(self, signal: Signal<T, E>) -> ReconnectionState {
        match signal {
            Signal::Initialised => self.backoff.after(true),
            Signal::InitialiseFailed => self.backoff.after(false),
            _ => self.backoff,
        }
    }

    /// The loop after `signal`.
    pub open spec fn next<T, E>(self, signal: Signal<T, E>) -> Self {
        ReconnectLoop {
            backoff: self.next_backoff(signal),
            step: self.next_step(signal),
            ..self
        }
    }

    /// What the consumer sees of `signal`.
    pub open spec fn event<T, E>(self, signal: Signal<T, E>) -> Option<
        Event<Origin, Result<T, E>>,
    > {
        match signal {
            Signal::Received(received) => Some(received.event(self.origin)),
            _ => None,
        }
    }

    /// A loop that has yet to initialise its first stream.
    pub open spec fn fresh(
        policy: ReconnectionBackoffPolicy,
        idle_max: Option<Duration>,
        origin: Origin,
    ) -> Self {
        ReconnectLoop {
            backoff: ReconnectionState::fresh(policy),
            idle_max,
            origin,
            step: Step::Initialise,
        }
    }

    /// A loop whose first stream was initialised.
    pub open spec fn started(
        policy: ReconnectionBackoffPolicy,
        idle_max: Option<Duration>,
        origin: Origin,
    ) -> Self {
        ReconnectLoop { step: Step::Receive, ..Self::fresh(policy, idle_max, origin) }
    }

    /// Start from the outcome of the first attempt to initialise a stream: its
    /// error is handed back, its stream is the one to receive from.
    pub fn start<St, InitError>(
        initial: Result<St, InitError>,
        policy: ReconnectionBackoffPolicy,
        idle_max: Option<Duration>,
        origin: Origin,
    ) -> (started: Result<(Self, St), InitError>)
        ensures
            match initial {
                Ok(stream) => started == Ok::<(Self, St), InitError>(
                    (Self::started(policy, idle_max, origin), stream),
                ),
                Err(error) => started == Err::<(Self, St), InitError>(error),
            },
            initial is Ok ==> {
                &&& started is Ok
                &&& started->Ok_0.0.idle_max == idle_max
                &&& started->Ok_0.0.origin == origin
                &&& started->Ok_0.0.step is Receive
                &&& started->Ok_0.0.backoff.policy == policy
                &&& started->Ok_0.0.backoff.backoff_ms_current == policy.backoff_ms_initial
                &&& started->Ok_0.1 == initial->Ok_0
            },
    {
        match initial {
            Ok(stream) => Ok(
                (
                    ReconnectLoop {
                        backoff: ReconnectionState::from(policy),
                        idle_max,
                        origin,
                        step: Step::Receive,
                    },
                    stream,
                ),
            ),
            Err(error) => Err(error),
        }
    }

    /// What the driver has to do next.
    pub fn command(&self) -> (command: Command)
        ensures
            match self.step {
                Step::Initialise => command == Command::Initialise,
                Step::Sleep(ms) => command matches Command::Sleep(sleep) && duration_nanos(sleep)
                    == ms as nat * 1_000_000,
                Step::Receive => command == (Command::Receive { idle_max: self.idle_max }),
            },
    {
        match self.step {
            Step::Initialise => Command::Initialise,
            Step::Sleep(ms) => Command::Sleep(Duration::from_millis(ms)),
            Step::Receive => Command::Receive { idle_max: self.idle_max },
        }
    }
}

impl<Origin: Copy> ReconnectLoop<Origin> {
    /// Take note of what came of the command, and hand out what the consumer
    /// sees of it.
    pub fn advance<T, E>(&mut self, signal: Signal<T, E>) -> (event: Option<
        Event<Origin, Result<T, E>>,
    >)
        requires
            old(self).accepts(signal),
        ensures
            *final(self) == old(self).next(signal),
            event == old(self).event(signal),
            final(self).idle_max == old(self).idle_max,
            final(self).origin == old(self).origin,
            final(self).backoff.policy == old(self).backoff.policy,
            signal is Initialised ==> {
                &&& event is None
                &&& final(self).step is Receive
                &&& final(self).backoff.backoff_ms_current
                    == old(self).backoff.policy.backoff_ms_initial
            },
            signal is InitialiseFailed ==> {
                let current = old(self).backoff.backoff_ms_current;
                let product = current * old(self).backoff.policy.backoff_multiplier;
                let max = old(self).backoff.policy.backoff_ms_max;
                &&& event is None
                &&& current <= max ==> final(self).step == Step::Sleep(current)
                &&& current > max ==> final(self).step == Step::Sleep(max)
                &&& product <= max ==> final(self).backoff.backoff_ms_current == product
                &&& product > max ==> final(self).backoff.backoff_ms_current == max
            },
            signal is Slept ==> {
                &&& event is None
                &&& final(self).step is Initialise
                &&& final(self).backoff == old(self).backoff
            },
            signal matches Signal::Received(Received::Item(item)) ==> {
                &&& event == Some(Event::<Origin, Result<T, E>>::Item(Ok(item)))
                &&& *final(self) == *old(self)
            },
            signal matches Signal::Received(Received::Error { error, terminal: false }) ==> {
                &&& event == Some(Event::<Origin, Result<T, E>>::Item(Err(error)))
                &&& *final(self) == *old(self)
            },
            (signal matches Signal::Received(Received::Error { error: _, terminal: true }))
                || (signal matches Signal::Received(Received::Idle))
                || (signal matches Signal::Received(Received::Ended)) ==> {
                &&& event == Some(Event::<Origin, Result<T, E>>::Reconnecting(old(self).origin))
                &&& final(self).step is Initialise
                &&& final(self).backoff == old(self).backoff
            },
    {
        match signal {
            Signal::Initialised => {
                self.backoff.reset_backoff();
                self.step = Step::Receive;
                None
            },
            Signal::InitialiseFailed => {
                self.step = Step::Sleep(self.backoff.sleep_ms());
                self.backoff.multiply_backoff();
                None
            },
            Signal::Slept => {
                self.step = Step::Initialise;
                None
            },
            Signal::Received(Received::Item(item)) => Some(Event::Item(Ok(item))),
            Signal::Received(Received::Error { error, terminal: false }) => Some(
                Event::Item(Err(error)),
            ),
            Signal::Received(_) => {
                self.step = Step::Initialise;
                Some(Event::Reconnecting(self.origin))
            },
        }
    }
}

} // verus!
