//! What holds of the loop over any run of signals: it makes of its streams what
//! the stages make of them one after the other.

use std::time::Duration;
use vstd::prelude::*;

use super::backoff_laws::{after_attempts, backoff_fits, lemma_first_attempt, lemma_first_fits};
use super::backoff_laws::sleeps;
use super::event_loop::{received_spec, Command, Received, ReconnectLoop, Signal, Step};
use super::pipeline::{is_terminal, outcomes, pipeline, stream_events, successes};
use super::pipeline::{with_idle_timeout, with_termination_on_error};
use super::stream::{Elapsed, ReconnectionBackoffPolicy, ReconnectionState};
use super::Event;

verus! {

/// The loop after `signals`.
pub open spec fn run<Origin, T, E>(
    start: ReconnectLoop<Origin>,
    signals: Seq<Signal<T, E>>,
) -> ReconnectLoop<Origin>
    decreases signals.len(),
{
    if signals.len() == 0 {
        start
    } else {
        run(start.next(signals.first()), signals.drop_first())
    }
}

/// Whether the loop accepts each of `signals` in turn.
pub open spec fn can_run<Origin, T, E>(
    start: ReconnectLoop<Origin>,
    signals: Seq<Signal<T, E>>,
) -> bool
    decreases signals.len(),
{
    signals.len() == 0 || {
        &&& start.accepts(signals.first())
        &&& can_run(start.next(signals.first()), signals.drop_first())
    }
}

/// What the consumer sees of `signals`.
pub open spec fn run_events<Origin, T, E>(
    start: ReconnectLoop<Origin>,
    signals: Seq<Signal<T, E>>,
) -> Seq<Event<Origin, Result<T, E>>>
    decreases signals.len(),
{
    if signals.len() == 0 {
        Seq::empty()
    } else {
        let rest = run_events(start.next(signals.first()), signals.drop_first());
        match start.event(signals.first()) {
            Some(event) => seq![event] + rest,
            None => rest,
        }
    }
}

/// The sleeps in milliseconds that the loop commands on `signals`.
pub open spec fn run_sleeps<Origin, T, E>(
    start: ReconnectLoop<Origin>,
    signals: Seq<Signal<T, E>>,
) -> Seq<u64>
    decreases signals.len(),
{
    if signals.len() == 0 {
        Seq::empty()
    } else {
        let next = start.next(signals.first());
        let rest = run_sleeps(next, signals.drop_first());
        match next.step {
            Step::Sleep(ms) => seq![ms] + rest,
            _ => rest,
        }
    }
}

/// What a driver hands to the loop of a stream that delivers `items`: it polls
/// until the stream is over.
pub open spec fn stream_signals<T, E>(
    items: Seq<Result<Result<T, E>, Elapsed>>,
    terminal: spec_fn(E) -> bool,
) -> Seq<Signal<T, E>>
    decreases items.len(),
{
    if items.len() == 0 {
        seq![Signal::Received(received_spec(None, false))]
    } else {
        let received = received_spec(
            Some(items.first()),
            items.first() matches Ok(result) && is_terminal(result, terminal),
        );
        if received.closes() {
            seq![Signal::Received(received)]
        } else {
            seq![Signal::Received(received)] + stream_signals(items.drop_first(), terminal)
        }
    }
}

/// What a driver hands to the loop that attempts to initialise streams, with
/// what each of them delivers.
pub open spec fn signals<T, E, InitError>(
    attempts: Seq<Result<Seq<Result<Result<T, E>, Elapsed>>, InitError>>,
    terminal: spec_fn(E) -> bool,
) -> Seq<Signal<T, E>>
    decreases attempts.len(),
{
    if attempts.len() == 0 {
        Seq::empty()
    } else {
        let rest = signals(attempts.drop_first(), terminal);
        match attempts.first() {
            Ok(items) => seq![Signal::Initialised] + stream_signals(items, terminal) + rest,
            Err(_) => seq![Signal::InitialiseFailed, Signal::Slept] + rest,
        }
    }
}

/// A run can be cut in two.
proof fn lemma_run_concat<Origin, T, E>(
    start: ReconnectLoop<Origin>,
    left: Seq<Signal<T, E>>,
    right: Seq<Signal<T, E>>,
)
    ensures
        run(start, left + right) == run(run(start, left), right),
        can_run(start, left + right) == (can_run(start, left) && can_run(run(start, left), right)),
        run_events(start, left + right) == run_events(start, left) + run_events(
            run(start, left),
            right,
        ),
        run_sleeps(start, left + right) == run_sleeps(start, left) + run_sleeps(
            run(start, left),
            right,
        ),
    decreases left.len(),
{
    if left.len() == 0 {
        assert(left + right =~= right);
    } else {
        let next = start.next(left.first());
        assert((left + right).first() == left.first());
        assert((left + right).drop_first() =~= left.drop_first() + right);
        lemma_run_concat(next, left.drop_first(), right);
    }
}

/// A stream in the loop, whatever it delivers: the consumer sees its items and
/// recoverable errors, unchanged and in order, up to an elapsed idle limit or a
/// terminal error, then exactly one marker, and the loop goes on to initialise
/// the next stream, with its backoff untouched.
pub proof fn law_stream_ends_with_marker<Origin, T, E>(
    start: ReconnectLoop<Origin>,
    items: Seq<Result<Result<T, E>, Elapsed>>,
    terminal: spec_fn(E) -> bool,
)
    requires
        start.step is Receive,
        start.idle_max is Some || forall|i: int| 0 <= i < items.len() ==> items[i] is Ok,
    ensures
        can_run(start, stream_signals(items, terminal)),
        run(start, stream_signals(items, terminal)) == (ReconnectLoop {
            step: Step::Initialise,
            ..start
        }),
        run_events(start, stream_signals(items, terminal)) == stream_events(
            with_termination_on_error(with_idle_timeout(items), terminal),
            start.origin,
        ),
        run_sleeps(start, stream_signals(items, terminal)) == Seq::<u64>::empty(),
    decreases items.len(),
{
    let all = stream_signals(items, terminal);
    reveal_with_fuel(run, 2);
    reveal_with_fuel(can_run, 2);
    reveal_with_fuel(run_events, 2);
    reveal_with_fuel(run_sleeps, 2);
    let kept = with_idle_timeout(items);
    let passed = with_termination_on_error(kept, terminal);
    if items.len() == 0 {
        assert(all.drop_first() =~= Seq::<Signal<T, E>>::empty());
        assert(passed =~= Seq::<Result<T, E>>::empty());
    } else {
        let rest = items.drop_first();
        match items.first() {
            Err(_) => {
                assert(items[0] is Err);
                assert(all.drop_first() =~= Seq::<Signal<T, E>>::empty());
                assert(passed =~= Seq::<Result<T, E>>::empty());
            },
            Ok(result) => {
                assert(kept =~= seq![result] + with_idle_timeout(rest));
                assert(kept.first() == result);
                assert(kept.drop_first() =~= with_idle_timeout(rest));
                if is_terminal(result, terminal) {
                    assert(all.drop_first() =~= Seq::<Signal<T, E>>::empty());
                    assert(passed =~= Seq::<Result<T, E>>::empty());
                } else {
                    assert(all.drop_first() =~= stream_signals(rest, terminal));
                    law_stream_ends_with_marker(start, rest, terminal);
                    assert(passed =~= seq![result] + with_termination_on_error(
                        with_idle_timeout(rest),
                        terminal,
                    ));
                    assert(start.next(all.first()) == start);
                    assert(stream_events(passed, start.origin) =~= seq![
                        Event::<Origin, Result<T, E>>::Item(result),
                    ] + stream_events(
                        with_termination_on_error(with_idle_timeout(rest), terminal),
                        start.origin,
                    ));
                }
            },
        }
    }
}

/// Whether an idle limit elapses only where there is one.
pub open spec fn idle_only_with_limit<Origin, T, E, InitError>(
    start: ReconnectLoop<Origin>,
    attempts: Seq<Result<Seq<Result<Result<T, E>, Elapsed>>, InitError>>,
) -> bool {
    start.idle_max is Some || forall|i: int, j: int|
        0 <= i < attempts.len() && attempts[i] is Ok && 0 <= j < attempts[i]->Ok_0.len()
            ==> #[trigger] attempts[i]->Ok_0[j] is Ok
}

/// The loop is the pipeline: on any attempts, with whatever their streams
/// deliver, it shows its consumer what the stages make of them one after the
/// other, and sleeps once for each failed attempt, for as long as the backoff
/// stage says.
pub proof fn law_loop_is_pipeline<Origin, T, E, InitError>(
    start: ReconnectLoop<Origin>,
    attempts: Seq<Result<Seq<Result<Result<T, E>, Elapsed>>, InitError>>,
    terminal: spec_fn(E) -> bool,
)
    requires
        start.step is Initialise,
        backoff_fits(start.backoff, outcomes(attempts)),
        idle_only_with_limit(start, attempts),
    ensures
        can_run(start, signals(attempts, terminal)),
        run(start, signals(attempts, terminal)) == (ReconnectLoop {
            backoff: after_attempts(start.backoff, outcomes(attempts)),
            ..start
        }),
        run_events(start, signals(attempts, terminal)) == pipeline(
            attempts,
            terminal,
            start.origin,
        ),
        run_sleeps(start, signals(attempts, terminal)) == sleeps(
            start.backoff,
            outcomes(attempts),
        ),
    decreases attempts.len(),
{
    let stage = |items: Seq<Result<Result<T, E>, Elapsed>>|
        with_termination_on_error(with_idle_timeout(items), terminal);
    if attempts.len() == 0 {
        assert(outcomes(attempts) =~= Seq::<bool>::empty());
        assert(successes(attempts).map_values(stage) =~= Seq::<Seq<Result<T, E>>>::empty());
    } else {
        let first = attempts.first();
        let rest = attempts.drop_first();
        let ok = first is Ok;
        assert(outcomes(attempts) =~= seq![ok] + outcomes(rest));
        lemma_first_attempt(start.backoff, ok, outcomes(rest));
        lemma_first_fits(start.backoff, ok, outcomes(rest));
        let settled = ReconnectLoop { backoff: start.backoff.after(ok), ..start };
        assert(idle_only_with_limit(settled, rest)) by {
            assert forall|i: int, j: int|
                start.idle_max is None && 0 <= i < rest.len() && rest[i] is Ok && 0 <= j
                    < rest[i]->Ok_0.len() implies #[trigger] rest[i]->Ok_0[j] is Ok by {
                assert(attempts[i + 1] == rest[i]);
                assert(attempts[i + 1]->Ok_0[j] is Ok);
            }
        }
        law_loop_is_pipeline(settled, rest, terminal);
        reveal_with_fuel(run, 3);
        reveal_with_fuel(can_run, 3);
        reveal_with_fuel(run_events, 3);
        reveal_with_fuel(run_sleeps, 3);
        match first {
            Ok(items) => {
                let opened: Seq<Signal<T, E>> = seq![Signal::Initialised];
                let middle = stream_signals(items, terminal);
                let receiving = start.next(opened.first());
                assert(opened.drop_first() =~= Seq::<Signal<T, E>>::empty());
                assert(run(start, opened) == receiving);
                assert forall|j: int| start.idle_max is None && 0 <= j < items.len() implies
                    #[trigger] items[j] is Ok by {
                    assert(attempts[0]->Ok_0[j] is Ok);
                }
                law_stream_ends_with_marker(receiving, items, terminal);
                lemma_run_concat(start, opened, middle);
                lemma_run_concat(start, opened + middle, signals(rest, terminal));
                assert(successes(attempts).map_values(stage) =~= seq![stage(items)]
                    + successes(rest).map_values(stage));
                let streams = successes(attempts).map_values(stage);
                assert(streams.first() == stage(items));
                assert(streams.drop_first() =~= successes(rest).map_values(stage));
            },
            Err(_) => {
                let failed: Seq<Signal<T, E>> = seq![Signal::InitialiseFailed, Signal::Slept];
                assert(failed.drop_first() =~= seq![Signal::<T, E>::Slept]);
                assert(failed.drop_first().drop_first() =~= Seq::<Signal<T, E>>::empty());
                assert(run(start, failed) == settled);
                assert(run_sleeps(start, failed) =~= seq![start.backoff.sleep_ms_spec()]);
                lemma_run_concat(start, failed, signals(rest, terminal));
            },
        }
    }
}

/// A loop that [`ReconnectLoop::start`] hands out, with the stream that the
/// first attempt gave it, is the pipeline of that attempt and all that follow.
pub proof fn law_started_loop_is_pipeline<Origin, T, E, InitError>(
    policy: ReconnectionBackoffPolicy,
    idle_max: Option<Duration>,
    origin: Origin,
    initial: Seq<Result<Result<T, E>, Elapsed>>,
    attempts: Seq<Result<Seq<Result<Result<T, E>, Elapsed>>, InitError>>,
    terminal: spec_fn(E) -> bool,
)
    requires
        backoff_fits(ReconnectionState::fresh(policy), outcomes(attempts)),
        idle_only_with_limit(
            ReconnectLoop::fresh(policy, idle_max, origin),
            seq![Ok::<_, InitError>(initial)] + attempts,
        ),
    ensures
        ({
            let started = ReconnectLoop::started(policy, idle_max, origin);
            let handed = stream_signals(initial, terminal) + signals(attempts, terminal);
            &&& can_run(started, handed)
            &&& run_events(started, handed) == pipeline(
                seq![Ok::<_, InitError>(initial)] + attempts,
                terminal,
                origin,
            )
            &&& run_sleeps(started, handed) == sleeps(
                ReconnectionState::fresh(policy),
                outcomes(attempts),
            )
        }),
{
    let fresh = ReconnectLoop::fresh(policy, idle_max, origin);
    let first = Ok::<Seq<Result<Result<T, E>, Elapsed>>, InitError>(initial);
    let all = seq![first] + attempts;
    assert(outcomes(all) =~= seq![true] + outcomes(attempts));
    assert(fresh.backoff.after(true) == fresh.backoff);
    assert(backoff_fits(fresh.backoff, outcomes(all))) by {
        assert forall|i: int| 0 <= i < outcomes(all).len() && !#[trigger] outcomes(all)[i] implies
            after_attempts(fresh.backoff, outcomes(all).take(i)).can_multiply() by {
            assert(outcomes(attempts)[i - 1] == outcomes(all)[i]);
            assert(outcomes(all).take(i) =~= seq![true] + outcomes(attempts).take(i - 1));
            lemma_first_attempt(fresh.backoff, true, outcomes(attempts).take(i - 1));
        }
    }
    law_loop_is_pipeline(fresh, all, terminal);
    lemma_first_attempt(fresh.backoff, true, outcomes(attempts));
    let handed = stream_signals(initial, terminal) + signals(attempts, terminal);
    let opened: Seq<Signal<T, E>> = seq![Signal::Initialised];
    assert(all.first() == first);
    assert(all.drop_first() =~= attempts);
    assert(signals(all, terminal) =~= opened + handed);
    assert((opened + handed).drop_first() =~= handed);
    assert(fresh.next(opened.first()) == ReconnectLoop::started(policy, idle_max, origin));
}

/// A consumer sees something exactly when a stream was polled, and a marker
/// exactly when that stream is over; then, and after a sleep, the loop
/// initialises a stream. Only a failed attempt leads to a sleep, of the backoff
/// at that time, and none is longer than the maximum.
pub proof fn law_signals_lead_on<Origin, T, E>(state: ReconnectLoop<Origin>, signal: Signal<T, E>)
    requires
        state.accepts(signal),
    ensures
        state.event(signal) is Some <==> state.step is Receive,
        state.event(signal) matches Some(Event::Reconnecting(_)) <==> state.step is Receive
            && state.next(signal).step is Initialise,
        state.step is Sleep ==> state.next(signal).step is Initialise,
        state.next(signal).step is Sleep <==> signal is InitialiseFailed,
        signal is InitialiseFailed ==> state.next(signal).step == Step::Sleep(
            state.backoff.sleep_ms_spec(),
        ),
        state.next(signal).step matches Step::Sleep(ms) ==> ms
            <= state.backoff.policy.backoff_ms_max,
        state.next(signal).origin == state.origin,
        state.next(signal).idle_max == state.idle_max,
        state.next(signal).backoff.policy == state.backoff.policy,
        state.backoff.wf() ==> state.next(signal).backoff.wf(),
{
}

/// One if `condition` holds, else none.
pub open spec fn one_if(condition: bool) -> nat {
    if condition {
        1
    } else {
        0
    }
}

/// How many of `signals` are outcomes of attempts to initialise a stream.
pub open spec fn attempts_made<T, E>(signals: Seq<Signal<T, E>>) -> nat
    decreases signals.len(),
{
    if signals.len() == 0 {
        0
    } else {
        one_if(signals.first().ends_attempt()) + attempts_made(signals.drop_first())
    }
}

/// How many of `signals` are attempts that failed.
pub open spec fn attempts_failed<T, E>(signals: Seq<Signal<T, E>>) -> nat
    decreases signals.len(),
{
    if signals.len() == 0 {
        0
    } else {
        one_if(signals.first() is InitialiseFailed) + attempts_failed(signals.drop_first())
    }
}

/// How many of `signals` end a stream.
pub open spec fn streams_ended<T, E>(signals: Seq<Signal<T, E>>) -> nat
    decreases signals.len(),
{
    if signals.len() == 0 {
        0
    } else {
        one_if(signals.first().ends_stream()) + streams_ended(signals.drop_first())
    }
}

/// How many of `signals` end a sleep.
pub open spec fn sleeps_ended<T, E>(signals: Seq<Signal<T, E>>) -> nat
    decreases signals.len(),
{
    if signals.len() == 0 {
        0
    } else {
        one_if(signals.first() is Slept) + sleeps_ended(signals.drop_first())
    }
}

/// How many times a driver has carried out the command to initialise a stream
/// once it has handed over `signals`.
pub open spec fn initialise_commands<Origin, T, E>(
    start: ReconnectLoop<Origin>,
    signals: Seq<Signal<T, E>>,
) -> nat
    decreases signals.len(),
{
    if signals.len() == 0 {
        0
    } else {
        one_if(start.step is Initialise) + initialise_commands(
            start.next(signals.first()),
            signals.drop_first(),
        )
    }
}

/// Attempts are made one at a time and only on demand. Over any run, each
/// command to initialise a stream is one attempt, and there is one for each
/// stream and each sleep that is over, save the one that is due. Each failed
/// attempt is followed by one sleep, and each stream that was initialised by
/// its end, save the sleep or the stream that goes on.
pub proof fn law_attempts_are_made_on_demand<Origin, T, E>(
    start: ReconnectLoop<Origin>,
    signals: Seq<Signal<T, E>>,
)
    requires
        can_run(start, signals),
    ensures
        initialise_commands(start, signals) == attempts_made(signals),
        attempts_made(signals) + one_if(run(start, signals).step is Initialise) == streams_ended(
            signals,
        ) + sleeps_ended(signals) + one_if(start.step is Initialise),
        sleeps_ended(signals) + one_if(run(start, signals).step is Sleep) == attempts_failed(
            signals,
        ) + one_if(start.step is Sleep),
        streams_ended(signals) + one_if(run(start, signals).step is Receive) == attempts_made(
            signals,
        ) - attempts_failed(signals) + one_if(start.step is Receive),
    decreases signals.len(),
{
    if signals.len() > 0 {
        law_attempts_are_made_on_demand(start.next(signals.first()), signals.drop_first());
    }
}

/// Any beginning of a run is a run, so that what holds over any run holds at
/// every moment of it.
pub proof fn law_beginnings_of_runs_are_runs<Origin, T, E>(
    start: ReconnectLoop<Origin>,
    signals: Seq<Signal<T, E>>,
    count: int,
)
    requires
        can_run(start, signals),
        0 <= count <= signals.len(),
    ensures
        can_run(start, signals.take(count)),
{
    assert(signals =~= signals.take(count) + signals.skip(count));
    lemma_run_concat(start, signals.take(count), signals.skip(count));
}

/// How many outcomes of attempts a consumer has been given once `signals` were
/// handed over: none before it polls, then that of the first attempt, which
/// started the loop, and those of all others.
pub open spec fn outcomes_given<T, E>(signals: Seq<Signal<T, E>>) -> nat {
    if signals.len() == 0 {
        0
    } else {
        1 + attempts_made(signals)
    }
}

/// A loop that [`ReconnectLoop::start`] hands out attempts to initialise a
/// stream, the first attempt included, once before its consumer polls and then
/// exactly as many times as its consumer is given an outcome. Each further
/// attempt awaits the end of a stream or of a sleep.
pub proof fn law_started_loop_attempts_on_demand<Origin, T, E>(
    policy: ReconnectionBackoffPolicy,
    idle_max: Option<Duration>,
    origin: Origin,
    signals: Seq<Signal<T, E>>,
)
    requires
        can_run(ReconnectLoop::started(policy, idle_max, origin), signals),
    ensures
        ({
            let started = ReconnectLoop::started(policy, idle_max, origin);
            let given = outcomes_given(signals);
            &&& 1 + initialise_commands(started, signals) == if given >= 1 {
                given
            } else {
                1
            }
            &&& attempts_made(signals) + one_if(run(started, signals).step is Initialise)
                == streams_ended(signals) + sleeps_ended(signals)
        }),
{
    law_attempts_are_made_on_demand(ReconnectLoop::started(policy, idle_max, origin), signals);
}

/// A loop that [`ReconnectLoop::start`] hands out has the idle limit, the origin
/// and the policy that it was given, whatever they are, with the initial
/// backoff, and receives.
pub proof fn law_started_loop_has_what_it_was_given<Origin>(
    policy: ReconnectionBackoffPolicy,
    idle_max: Option<Duration>,
    origin: Origin,
)
    ensures
        ReconnectLoop::started(policy, idle_max, origin).idle_max == idle_max,
        ReconnectLoop::started(policy, idle_max, origin).origin == origin,
        ReconnectLoop::started(policy, idle_max, origin).step is Receive,
        ReconnectLoop::started(policy, idle_max, origin).backoff.policy == policy,
        ReconnectLoop::started(policy, idle_max, origin).backoff.backoff_ms_current
            == policy.backoff_ms_initial,
        ReconnectLoop::fresh(policy, idle_max, origin).idle_max == idle_max,
        ReconnectLoop::fresh(policy, idle_max, origin).origin == origin,
        ReconnectLoop::fresh(policy, idle_max, origin).step is Initialise,
        ReconnectLoop::fresh(policy, idle_max, origin).backoff.policy == policy,
        ReconnectLoop::fresh(policy, idle_max, origin).backoff.backoff_ms_current
            == policy.backoff_ms_initial,
{
}

/// No signals ever take the idle limit, the origin or the policy from a loop.
pub proof fn law_runs_keep_what_was_given<Origin, T, E>(
    start: ReconnectLoop<Origin>,
    signals: Seq<Signal<T, E>>,
)
    ensures
        run(start, signals).idle_max == start.idle_max,
        run(start, signals).origin == start.origin,
        run(start, signals).backoff.policy == start.backoff.policy,
    decreases signals.len(),
{
    if signals.len() > 0 {
        law_runs_keep_what_was_given(start.next(signals.first()), signals.drop_first());
    }
}

/// A loop accepts what its command can bring, and nothing else: the outcome of
/// an attempt while it initialises, with a failure only where the backoff can
/// be multiplied; the end of a sleep while it sleeps; and while it receives
/// anything that polling can come to, an elapsed limit only if there is one.
pub proof fn law_commands_bring_what_is_accepted<Origin, T, E>(
    state: ReconnectLoop<Origin>,
    received: Received<T, E>,
)
    ensures
        state.accepts(Signal::<T, E>::Initialised) <==> state.step is Initialise,
        state.accepts(Signal::<T, E>::InitialiseFailed) <==> state.step is Initialise
            && state.backoff.backoff_ms_current * state.backoff.policy.backoff_multiplier
            <= u64::MAX,
        state.accepts(Signal::<T, E>::Slept) <==> state.step is Sleep,
        !(received is Idle) ==> (state.accepts(Signal::Received(received)) <==> state.step
            is Receive),
        received is Idle ==> (state.accepts(Signal::Received(received)) <==> state.step is Receive
            && state.idle_max is Some),
{
}

/// What polling comes to, told by what was polled: an item, an error with its
/// verdict, the elapsed limit, or the end.
pub proof fn law_polls_are_told_apart<T, E>(item: T, error: E, terminal: bool)
    ensures
        received_spec(Some(Ok::<Result<T, E>, Elapsed>(Ok(item))), terminal) == Received::<
            T,
            E,
        >::Item(item),
        received_spec(Some(Ok::<Result<T, E>, Elapsed>(Err(error))), terminal) == (Received::<
            T,
            E,
        >::Error { error, terminal }),
        received_spec(Some(Err::<Result<T, E>, Elapsed>(Elapsed)), terminal) == Received::<
            T,
            E,
        >::Idle,
        received_spec(None::<Result<Result<T, E>, Elapsed>>, terminal) == Received::<T, E>::Ended,
{
}

/// Items and recoverable errors are shown as they are and change nothing; a
/// terminal error, an elapsed limit and the end of a stream show as the marker
/// of the loop's origin, leave the backoff and have a stream initialised.
pub proof fn law_polls_are_shown_or_end_the_stream<Origin, T, E>(
    state: ReconnectLoop<Origin>,
    item: T,
    error: E,
)
    ensures
        state.event(Signal::<T, E>::Received(Received::Item(item))) == Some(
            Event::<Origin, Result<T, E>>::Item(Ok(item)),
        ),
        state.event(
            Signal::<T, E>::Received(Received::Error { error, terminal: false }),
        ) == Some(Event::<Origin, Result<T, E>>::Item(Err(error))),
        state.step is Receive ==> state.next(Signal::<T, E>::Received(Received::Item(item)))
            == state,
        state.step is Receive ==> state.next(
            Signal::<T, E>::Received(Received::Error { error, terminal: false }),
        ) == state,
        forall|over: Received<T, E>|
            #![trigger state.next(Signal::Received(over))]
            #![trigger state.event(Signal::Received(over))]
            over is Idle || over is Ended || over == (Received::<T, E>::Error {
                error,
                terminal: true,
            }) ==> {
                &&& state.event(Signal::Received(over)) == Some(
                    Event::<Origin, Result<T, E>>::Reconnecting(state.origin),
                )
                &&& state.next(Signal::Received(over)).step is Initialise
                &&& state.next(Signal::Received(over)).backoff == state.backoff
            },
{
}

/// Attempts and sleeps show nothing. A success has the loop receive with the
/// initial backoff. A failure has it sleep for the backoff or the maximum,
/// whichever is less, and multiplies the backoff up to the maximum. The end of
/// a sleep has it initialise a stream, with the backoff as it is.
pub proof fn law_attempts_and_sleeps_lead_on<Origin, T, E>(state: ReconnectLoop<Origin>)
    ensures
        state.event(Signal::<T, E>::Initialised) is None,
        state.event(Signal::<T, E>::InitialiseFailed) is None,
        state.event(Signal::<T, E>::Slept) is None,
        state.next(Signal::<T, E>::Initialised).step is Receive,
        state.next(Signal::<T, E>::Initialised).backoff.backoff_ms_current
            == state.backoff.policy.backoff_ms_initial,
        state.next(Signal::<T, E>::Slept).step is Initialise,
        state.next(Signal::<T, E>::Slept).backoff == state.backoff,
        ({
            let failed = state.next(Signal::<T, E>::InitialiseFailed);
            let current = state.backoff.backoff_ms_current;
            let product = current * state.backoff.policy.backoff_multiplier;
            let max = state.backoff.policy.backoff_ms_max;
            &&& current <= max ==> failed.step == Step::Sleep(current)
            &&& current > max ==> failed.step == Step::Sleep(max)
            &&& product <= max ==> failed.backoff.backoff_ms_current == product
            &&& product > max ==> failed.backoff.backoff_ms_current == max
        }),
{
}

/// Starting a loop from a stream and asking for its first command gives back the
/// stream and a poll under exactly the idle limit that was given; starting one
/// from an error gives back the error.
pub proof fn law_first_command_polls_under_the_limit<Origin, St, InitError>(
    initial: Result<St, InitError>,
    policy: ReconnectionBackoffPolicy,
    idle_max: Option<Duration>,
    origin: Origin,
    started: Result<(ReconnectLoop<Origin>, St), InitError>,
    command: Command,
)
    requires
        call_ensures(
            ReconnectLoop::<Origin>::start::<St, InitError>,
            (initial, policy, idle_max, origin),
            started,
        ),
        started is Ok ==> call_ensures(
            ReconnectLoop::<Origin>::command,
            (&started->Ok_0.0,),
            command,
        ),
    ensures
        initial matches Ok(stream) ==> {
            &&& started is Ok
            &&& started->Ok_0.1 == stream
            &&& command == (Command::Receive { idle_max })
            &&& started->Ok_0.0.origin == origin
            &&& started->Ok_0.0.backoff.policy == policy
            &&& started->Ok_0.0.backoff.backoff_ms_current == policy.backoff_ms_initial
        },
        initial matches Err(error) ==> started == Err::<(ReconnectLoop<Origin>, St), _>(error),
{
}

} // verus!
