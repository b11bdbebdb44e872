//! The rules of a reconnecting stream: its backoff between failed
//! initialisations, and what becomes of each item, error and silence.

use std::time::Duration;
use vstd::arithmetic::power::pow;
use vstd::prelude::*;

use super::Event;
use crate::time::duration_nanos;

verus! {

/// A value, cut off at `cap`.
pub open spec fn capped(value: int, cap: int) -> int {
    if value <= cap {
        value
    } else {
        cap
    }
}

/// How the backoff between attempts to initialise a stream scales.
#[derive(Debug, PartialEq, Eq, PartialOrd, Ord, Hash, Structural)]
pub struct ReconnectionBackoffPolicy {
    /// Backoff in milliseconds after the first failed attempt.
    ///
    /// It scales with `backoff_multiplier` while attempts go on failing.
    pub backoff_ms_initial: u64,
    /// Scaling factor of the backoff while attempts go on failing.
    pub backoff_multiplier: u8,
    /// Maximum possible backoff between attempts, the first one included.
    pub backoff_ms_max: u64,
}

impl Clone for ReconnectionBackoffPolicy {
    fn clone(&self) -> (copy: Self)
        ensures
            copy == *self,
    {
        ReconnectionBackoffPolicy {
            backoff_ms_initial: self.backoff_ms_initial,
            backoff_multiplier: self.backoff_multiplier,
            backoff_ms_max: self.backoff_ms_max,
        }
    }
}

impl ReconnectionBackoffPolicy {
    /// The backoff in milliseconds after a failed attempt that `failures` others
    /// came directly before: it grows exponentially from the initial backoff,
    /// and is cut off at the maximum.
    pub open spec fn backoff_ms(self, failures: nat) -> int {
        capped(
            self.backoff_ms_initial * pow(self.backoff_multiplier as int, failures),
            self.backoff_ms_max as int,
        )
    }

    /// Whether no backoff of this policy is too large to be multiplied.
    pub open spec fn never_overflows(self) -> bool {
        &&& self.backoff_ms_initial * self.backoff_multiplier <= u64::MAX
        &&& self.backoff_ms_max * self.backoff_multiplier <= u64::MAX
    }

    /// A policy of the given initial backoff, multiplier and maximum.
    pub fn new(
        backoff_ms_initial: u64,
        backoff_multiplier: u8,
        backoff_ms_max: u64,
    ) -> (policy: Self)
        ensures
            policy.backoff_ms_initial == backoff_ms_initial,
            policy.backoff_multiplier == backoff_multiplier,
            policy.backoff_ms_max == backoff_ms_max,
    {
        ReconnectionBackoffPolicy { backoff_ms_initial, backoff_multiplier, backoff_ms_max }
    }
}

/// A policy with the backoff that the next failed attempt leads to.
#[derive(Debug, PartialEq, Eq, PartialOrd, Ord, Hash, Structural)]
pub struct ReconnectionState {
    pub policy: ReconnectionBackoffPolicy,
    pub backoff_ms_current: u64,
}

impl Clone for ReconnectionState {
    fn clone(&self) -> (copy: Self)
        ensures
            copy == *self,
    {
        ReconnectionState {
            policy: self.policy.clone(),
            backoff_ms_current: self.backoff_ms_current,
        }
    }
}

impl From<ReconnectionBackoffPolicy> for ReconnectionState {
    fn from(policy: ReconnectionBackoffPolicy) -> (state: Self)
        ensures
            state.policy == policy,
            state.backoff_ms_current == policy.backoff_ms_initial,
    {
        ReconnectionState { backoff_ms_current: policy.backoff_ms_initial, policy }
    }
}

impl vstd::std_specs::convert::FromSpecImpl<ReconnectionBackoffPolicy> for ReconnectionState {
    open spec fn obeys_from_spec() -> bool {
        true
    }

    open spec fn from_spec(policy: ReconnectionBackoffPolicy) -> Self {
        ReconnectionState::fresh(policy)
    }
}

/// What an attempt to initialise a stream leads to.
#[derive(Debug, PartialEq, Eq)]
pub enum Attempt<St> {
    /// The stream is there.
    Ready(St),
    /// Sleep, then try again.
    Retry { sleep: Duration },
}

impl ReconnectionState {
    /// The state of a policy before any attempt.
    pub open spec fn fresh(policy: ReconnectionBackoffPolicy) -> Self {
        ReconnectionState { policy, backoff_ms_current: policy.backoff_ms_initial }
    }

    /// Every state reached from a policy is still at the initial backoff, or
    /// at one that the maximum bounds.
    pub open spec fn wf(self) -> bool {
        ||| self.backoff_ms_current == self.policy.backoff_ms_initial
        ||| self.backoff_ms_current <= self.policy.backoff_ms_max
    }

    /// Whether the backoff can be multiplied without leaving `u64`.
    pub open spec fn can_multiply(self) -> bool {
        self.backoff_ms_current * self.policy.backoff_multiplier <= u64::MAX
    }

    /// The sleep in milliseconds that a failed attempt asks for: the current
    /// backoff, cut off at the maximum.
    pub open spec fn sleep_ms_spec(self) -> u64 {
        capped(self.backoff_ms_current as int, self.policy.backoff_ms_max as int) as u64
    }

    /// The state with the initial backoff.
    pub open spec fn with_initial_backoff(self) -> Self {
        ReconnectionState { backoff_ms_current: self.policy.backoff_ms_initial, ..self }
    }

    /// The state with the backoff multiplied and capped.
    pub open spec fn with_multiplied_backoff(self) -> Self {
        ReconnectionState {
            backoff_ms_current: capped(
                self.backoff_ms_current * self.policy.backoff_multiplier,
                self.policy.backoff_ms_max as int,
            ) as u64,
            ..self
        }
    }

    /// The state after an attempt.
    pub open spec fn after(self, succeeded: bool) -> Self {
        if succeeded {
            self.with_initial_backoff()
        } else {
            self.with_multiplied_backoff()
        }
    }

    /// Return to the initial backoff.
    pub fn reset_backoff(&mut self)
        ensures
            final(self).policy == old(self).policy,
            final(self).backoff_ms_current == old(self).policy.backoff_ms_initial,
            *final(self) == old(self).with_initial_backoff(),
            final(self).wf(),
    {
        self.backoff_ms_current = self.policy.backoff_ms_initial;
    }

    /// Whether the backoff can be multiplied without leaving `u64`, as a failed
    /// attempt asks for.
    pub fn backoff_fits_u64(&self) -> (fits: bool)
        ensures
            fits == self.can_multiply(),
            fits <==> self.backoff_ms_current * self.policy.backoff_multiplier <= u64::MAX,
    {
        let product: Option<u64> = self.backoff_ms_current.checked_mul(
            self.policy.backoff_multiplier as u64,
        );
        product.is_some()
    }

    /// Multiply the backoff, up to the maximum of the policy.
    pub fn multiply_backoff(&mut self)
        requires
            old(self).can_multiply(),
        ensures
            final(self).policy == old(self).policy,
            final(self).backoff_ms_current == capped(
                old(self).backoff_ms_current * old(self).policy.backoff_multiplier,
                old(self).policy.backoff_ms_max as int,
            ),
            *final(self) == old(self).with_multiplied_backoff(),
            final(self).wf(),
            ({
                let product = old(self).backoff_ms_current * old(self).policy.backoff_multiplier;
                let max = old(self).policy.backoff_ms_max;
                &&& product <= max ==> final(self).backoff_ms_current == product
                &&& product > max ==> final(self).backoff_ms_current == max
            }),
    {
        let next: u64 = self.backoff_ms_current * self.policy.backoff_multiplier as u64;
        let next_capped: u64 = if next <= self.policy.backoff_ms_max {
            next
        } else {
            self.policy.backoff_ms_max
        };
        self.backoff_ms_current = next_capped;
    }

    /// How many milliseconds to sleep before the next attempt.
    pub fn sleep_ms(&self) -> (ms: u64)
        ensures
            ms == capped(self.backoff_ms_current as int, self.policy.backoff_ms_max as int),
            ms == self.sleep_ms_spec(),
            self.backoff_ms_current <= self.policy.backoff_ms_max ==> ms
                == self.backoff_ms_current,
            self.backoff_ms_current > self.policy.backoff_ms_max ==> ms
                == self.policy.backoff_ms_max,
    {
        if self.backoff_ms_current <= self.policy.backoff_ms_max {
            self.backoff_ms_current
        } else {
            self.policy.backoff_ms_max
        }
    }

    /// How long to sleep before the next attempt.
    pub fn generate_sleep_duration(&self) -> (sleep: Duration)
        ensures
            duration_nanos(sleep) == capped(
                self.backoff_ms_current as int,
                self.policy.backoff_ms_max as int,
            ) * 1_000_000,
            self.backoff_ms_current <= self.policy.backoff_ms_max ==> duration_nanos(sleep)
                == self.backoff_ms_current * 1_000_000,
            self.backoff_ms_current > self.policy.backoff_ms_max ==> duration_nanos(sleep)
                == self.policy.backoff_ms_max * 1_000_000,
    {
        Duration::from_millis(self.sleep_ms())
    }

    /// Take note of the outcome of an attempt to initialise a stream: a
    /// success returns to the initial backoff, a failure asks for a sleep of
    /// the current backoff, no longer than the maximum, and multiplies it.
    pub fn after_attempt<St, InitError>(&mut self, result: Result<St, InitError>) -> (attempt:
        Attempt<St>)
        requires
            result is Err ==> old(self).can_multiply(),
        ensures
            *final(self) == old(self).after(result is Ok),
            final(self).wf(),
            match result {
                Ok(stream) => attempt == Attempt::Ready(stream),
                Err(_) => attempt matches Attempt::Retry { sleep } && duration_nanos(sleep)
                    == capped(
                    old(self).backoff_ms_current as int,
                    old(self).policy.backoff_ms_max as int,
                ) * 1_000_000,
            },
            final(self).policy == old(self).policy,
            result is Ok ==> final(self).backoff_ms_current == old(self).policy.backoff_ms_initial,
            result is Err ==> {
                let current = old(self).backoff_ms_current;
                let product = current * old(self).policy.backoff_multiplier;
                let max = old(self).policy.backoff_ms_max;
                &&& attempt matches Attempt::Retry { sleep }
                &&& current <= max ==> duration_nanos(sleep) == current * 1_000_000
                &&& current > max ==> duration_nanos(sleep) == max * 1_000_000
                &&& product <= max ==> final(self).backoff_ms_current == product
                &&& product > max ==> final(self).backoff_ms_current == max
            },
    {
        match result {
            Ok(stream) => {
                self.reset_backoff();
                Attempt::Ready(stream)
            },
            Err(_) => {
                let sleep = self.generate_sleep_duration();
                self.multiply_backoff();
                Attempt::Retry { sleep }
            },
        }
    }
}

/// No item arrived within the idle limit.
#[derive(Debug, Copy, Clone, PartialEq, Eq, Structural)]
pub struct Elapsed;

/// What an idle limit leaves of an item, or of its absence.
pub open spec fn within_idle_limit_spec<T>(item: Result<T, Elapsed>) -> Option<T> {
    match item {
        Ok(item) => Some(item),
        Err(_) => None,
    }
}

/// Pass every item on, up to the first time that the idle limit elapsed:
/// `None` ends the stream.
pub fn within_idle_limit<T>(item: Result<T, Elapsed>) -> (kept: Option<T>)
    ensures
        kept == within_idle_limit_spec(item),
        item matches Ok(value) ==> kept == Some(value),
        item is Err ==> kept is None,
{
    match item {
        Ok(item) => Some(item),
        Err(_) => None,
    }
}

/// What is left of a result whose error, if it is one, is `terminal` or not:
/// `None` ends the stream.
pub open spec fn unless_terminal_spec<T, E>(result: Result<T, E>, terminal: bool) -> Option<
    Result<T, E>,
> {
    match result {
        Ok(item) => Some(Ok(item)),
        Err(error) => if terminal {
            None
        } else {
            Some(Err(error))
        },
    }
}

/// Pass every result on, up to the first error that `is_terminal` finds
/// unrecoverable: `None` ends the stream.
pub fn unless_terminal<T, E, FnIsTerminal: Fn(&E) -> bool>(
    result: Result<T, E>,
    is_terminal: FnIsTerminal,
) -> (kept: Option<Result<T, E>>)
    requires
        result matches Err(error) ==> call_requires(is_terminal, (&error,)),
    ensures
        result is Ok ==> kept == Some(result),
        result matches Err(error) ==> exists|terminal: bool|
            {
                &&& #[trigger] call_ensures(is_terminal, (&error,), terminal)
                &&& kept == unless_terminal_spec(result, terminal)
                &&& terminal ==> kept is None
                &&& !terminal ==> kept == Some(result)
            },
{
    match result {
        Ok(item) => Some(Ok(item)),
        Err(error) => if is_terminal(&error) {
            None
        } else {
            Some(Err(error))
        },
    }
}

/// What is left of an event once its error, if it holds one, has been handled.
pub open spec fn handled_spec<Origin, T, E>(event: Event<Origin, Result<T, E>>) -> Option<
    Event<Origin, T>,
> {
    match event {
        Event::Reconnecting(origin) => Some(Event::Reconnecting(origin)),
        Event::Item(Ok(item)) => Some(Event::Item(item)),
        Event::Item(Err(_)) => None,
    }
}

/// Hand an error to `op` and drop it; pass everything else on.
pub fn handle_error<Origin, T, E, FnOnErr: Fn(E)>(
    event: Event<Origin, Result<T, E>>,
    op: FnOnErr,
) -> (kept: Option<Event<Origin, T>>)
    requires
        event matches Event::Item(Err(error)) ==> call_requires(op, (error,)),
    ensures
        kept == handled_spec(event),
        event matches Event::Reconnecting(origin) ==> kept == Some(
            Event::<Origin, T>::Reconnecting(origin),
        ),
        event matches Event::Item(Ok(item)) ==> kept == Some(Event::<Origin, T>::Item(item)),
        event matches Event::Item(Err(_)) ==> kept is None,
        event matches Event::Item(Err(error)) ==> call_ensures(op, (error,), ()),
{
    match event {
        Event::Reconnecting(origin) => Some(Event::Reconnecting(origin)),
        Event::Item(Ok(item)) => Some(Event::Item(item)),
        Event::Item(Err(error)) => {
            op(error);
            None
        },
    }
}

} // verus!
