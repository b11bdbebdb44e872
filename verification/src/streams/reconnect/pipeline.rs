//! What the stages of a reconnecting stream make of whole streams.
//!
//! A stream is modelled by the sequence of what it delivers until it ends.

use vstd::prelude::*;

use super::stream::{handled_spec, unless_terminal_spec, within_idle_limit_spec, Elapsed};
use super::Event;

verus! {

/// What a stream delivers of `items` that is mapped item by item until `f` has
/// nothing for one of them.
pub open spec fn map_while<A, B>(items: Seq<A>, f: spec_fn(A) -> Option<B>) -> Seq<B>
    decreases items.len(),
{
    if items.len() == 0 {
        Seq::empty()
    } else {
        match f(items.first()) {
            Some(mapped) => seq![mapped] + map_while(items.drop_first(), f),
            None => Seq::empty(),
        }
    }
}

/// A stream under an idle limit: `items` tells each item from an elapsed limit.
pub open spec fn with_idle_timeout<T>(items: Seq<Result<T, Elapsed>>) -> Seq<T> {
    map_while(items, |item: Result<T, Elapsed>| within_idle_limit_spec(item))
}

/// A stream that ends at the first error that is `terminal`.
pub open spec fn with_termination_on_error<T, E>(
    results: Seq<Result<T, E>>,
    terminal: spec_fn(E) -> bool,
) -> Seq<Result<T, E>> {
    map_while(
        results,
        |result: Result<T, E>| unless_terminal_spec(result, is_terminal(result, terminal)),
    )
}

/// Whether a result is an error that is `terminal`.
pub open spec fn is_terminal<T, E>(result: Result<T, E>, terminal: spec_fn(E) -> bool) -> bool {
    match result {
        Ok(_) => false,
        Err(error) => terminal(error),
    }
}

/// The events of one stream: its items, then the marker.
pub open spec fn stream_events<Origin, T>(items: Seq<T>, origin: Origin) -> Seq<Event<Origin, T>> {
    items.map_values(|item: T| Event::<Origin, T>::Item(item)).push(Event::Reconnecting(origin))
}

/// The events of streams that follow each other.
pub open spec fn with_reconnection_events<Origin, T>(
    streams: Seq<Seq<T>>,
    origin: Origin,
) -> Seq<Event<Origin, T>>
    decreases streams.len(),
{
    if streams.len() == 0 {
        Seq::empty()
    } else {
        stream_events(streams.first(), origin) + with_reconnection_events(
            streams.drop_first(),
            origin,
        )
    }
}

/// The values among `results` that are no errors.
pub open spec fn successes<T, E>(results: Seq<Result<T, E>>) -> Seq<T>
    decreases results.len(),
{
    if results.len() == 0 {
        Seq::empty()
    } else {
        let rest = successes(results.drop_first());
        match results.first() {
            Ok(value) => seq![value] + rest,
            Err(_) => rest,
        }
    }
}

/// Which attempts succeeded.
pub open spec fn outcomes<St, InitError>(attempts: Seq<Result<St, InitError>>) -> Seq<bool> {
    attempts.map_values(|attempt: Result<St, InitError>| attempt is Ok)
}

/// All stages in turn: what a consumer sees of `attempts` to initialise
/// streams.
pub open spec fn pipeline<Origin, T, E, InitError>(
    attempts: Seq<Result<Seq<Result<Result<T, E>, Elapsed>>, InitError>>,
    terminal: spec_fn(E) -> bool,
    origin: Origin,
) -> Seq<Event<Origin, Result<T, E>>> {
    with_reconnection_events(
        successes(attempts).map_values(
            |items: Seq<Result<Result<T, E>, Elapsed>>|
                with_termination_on_error(with_idle_timeout(items), terminal),
        ),
        origin,
    )
}

/// The first time that an idle limit elapses ends the stream: the items before
/// it pass unchanged, and nothing that comes after it is delivered.
pub proof fn law_elapsed_limit_ends_stream<T>(items: Seq<T>, after: Seq<Result<T, Elapsed>>)
    ensures
        with_idle_timeout(items.map_values(|item: T| Ok::<T, Elapsed>(item))) == items,
        with_idle_timeout(
            items.map_values(|item: T| Ok::<T, Elapsed>(item)) + seq![Err(Elapsed)] + after,
        ) == items,
    decreases items.len(),
{
    let timely = items.map_values(|item: T| Ok::<T, Elapsed>(item));
    let all = timely + seq![Err(Elapsed)] + after;
    if items.len() == 0 {
        assert(timely =~= Seq::<Result<T, Elapsed>>::empty());
        assert(all.first() == Err::<T, Elapsed>(Elapsed));
    } else {
        let rest = items.drop_first();
        law_elapsed_limit_ends_stream(rest, after);
        let rest_timely = rest.map_values(|item: T| Ok::<T, Elapsed>(item));
        assert(timely.drop_first() =~= rest_timely);
        assert(all.drop_first() =~= rest_timely + seq![Err(Elapsed)] + after);
        assert(all.first() == Ok::<T, Elapsed>(items.first()));
        assert(items =~= seq![items.first()] + rest);
    }
}

/// Whether none of `results` is an error that is `terminal`.
pub open spec fn all_recoverable<T, E>(
    results: Seq<Result<T, E>>,
    terminal: spec_fn(E) -> bool,
) -> bool {
    forall|i: int| 0 <= i < results.len() ==> !is_terminal(#[trigger] results[i], terminal)
}

/// What follows the first of recoverable results is recoverable.
proof fn lemma_rest_is_recoverable<T, E>(
    results: Seq<Result<T, E>>,
    terminal: spec_fn(E) -> bool,
)
    requires
        all_recoverable(results, terminal),
        results.len() > 0,
    ensures
        all_recoverable(results.drop_first(), terminal),
        !is_terminal(results.first(), terminal),
{
    let rest = results.drop_first();
    assert(!is_terminal(results[0], terminal));
    assert forall|i: int| 0 <= i < rest.len() implies !is_terminal(#[trigger] rest[i], terminal) by {
        assert(rest[i] == results[i + 1]);
    }
}

/// A stream without a terminal error passes unchanged, recoverable errors
/// included.
pub proof fn law_recoverable_results_pass<T, E>(
    results: Seq<Result<T, E>>,
    terminal: spec_fn(E) -> bool,
)
    requires
        all_recoverable(results, terminal),
    ensures
        with_termination_on_error(results, terminal) == results,
    decreases results.len(),
{
    if results.len() > 0 {
        let rest = results.drop_first();
        lemma_rest_is_recoverable(results, terminal);
        law_recoverable_results_pass(rest, terminal);
        assert(results =~= seq![results.first()] + rest);
    }
}

/// The first terminal error ends the stream: the results before it pass
/// unchanged, and neither the error nor anything after it is delivered.
pub proof fn law_terminal_error_ends_stream<T, E>(
    results: Seq<Result<T, E>>,
    error: E,
    after: Seq<Result<T, E>>,
    terminal: spec_fn(E) -> bool,
)
    requires
        all_recoverable(results, terminal),
        terminal(error),
    ensures
        with_termination_on_error(results + seq![Err(error)] + after, terminal) == results,
    decreases results.len(),
{
    let all = results + seq![Err(error)] + after;
    if results.len() == 0 {
        assert(all.first() == Err::<T, E>(error));
        assert(results =~= Seq::<Result<T, E>>::empty());
    } else {
        let rest = results.drop_first();
        lemma_rest_is_recoverable(results, terminal);
        law_terminal_error_ends_stream(rest, error, after, terminal);
        assert(all.first() == results.first());
        assert(all.drop_first() =~= rest + seq![Err(error)] + after);
        assert(results =~= seq![results.first()] + rest);
    }
}

/// Whatever a stream delivers, no terminal error gets past its termination, and
/// what does is how the stream begins.
pub proof fn law_terminal_errors_are_withheld<T, E>(
    results: Seq<Result<T, E>>,
    terminal: spec_fn(E) -> bool,
)
    ensures
        with_termination_on_error(results, terminal).len() <= results.len(),
        forall|i: int|
            0 <= i < with_termination_on_error(results, terminal).len() ==> {
                &&& #[trigger] with_termination_on_error(results, terminal)[i] == results[i]
                &&& !is_terminal(results[i], terminal)
            },
    decreases results.len(),
{
    if results.len() > 0 && !is_terminal(results.first(), terminal) {
        let rest = results.drop_first();
        law_terminal_errors_are_withheld(rest, terminal);
        let passed = with_termination_on_error(results, terminal);
        assert(passed =~= seq![results.first()] + with_termination_on_error(rest, terminal));
        assert forall|i: int| 0 <= i < passed.len() implies {
            &&& #[trigger] passed[i] == results[i]
            &&& !is_terminal(results[i], terminal)
        } by {
            if i > 0 {
                assert(passed[i] == with_termination_on_error(rest, terminal)[i - 1]);
                assert(results[i] == rest[i - 1]);
            }
        }
    }
}

/// How many of `events` are markers.
pub open spec fn markers<Origin, T>(events: Seq<Event<Origin, T>>) -> nat
    decreases events.len(),
{
    if events.len() == 0 {
        0
    } else {
        (if events.first() is Reconnecting {
            1nat
        } else {
            0nat
        }) + markers(events.drop_first())
    }
}

/// The items of `events`.
pub open spec fn items_of<Origin, T>(events: Seq<Event<Origin, T>>) -> Seq<T>
    decreases events.len(),
{
    if events.len() == 0 {
        Seq::empty()
    } else {
        let rest = items_of(events.drop_first());
        match events.first() {
            Event::Item(item) => seq![item] + rest,
            Event::Reconnecting(_) => rest,
        }
    }
}

proof fn lemma_events_concat<Origin, T>(
    left: Seq<Event<Origin, T>>,
    right: Seq<Event<Origin, T>>,
)
    ensures
        markers(left + right) == markers(left) + markers(right),
        items_of(left + right) == items_of(left) + items_of(right),
    decreases left.len(),
{
    if left.len() == 0 {
        assert(left + right =~= right);
    } else {
        assert((left + right).first() == left.first());
        assert((left + right).drop_first() =~= left.drop_first() + right);
        lemma_events_concat(left.drop_first(), right);
    }
}

proof fn lemma_stream_events<Origin, T>(items: Seq<T>, origin: Origin)
    ensures
        markers(stream_events(items, origin)) == 1,
        items_of(stream_events(items, origin)) == items,
    decreases items.len(),
{
    let events = stream_events(items, origin);
    if items.len() == 0 {
        assert(events =~= seq![Event::<Origin, T>::Reconnecting(origin)]);
        assert(events.drop_first() =~= Seq::<Event<Origin, T>>::empty());
        reveal_with_fuel(markers, 2);
        reveal_with_fuel(items_of, 2);
        assert(items_of(events) =~= items);
    } else {
        assert(events.first() == Event::<Origin, T>::Item(items.first()));
        assert(events.drop_first() =~= stream_events(items.drop_first(), origin));
        lemma_stream_events(items.drop_first(), origin);
        assert(items =~= seq![items.first()] + items.drop_first());
    }
}

/// Every stream that ends, however few items it delivered, shows as exactly one
/// marker, with the origin it was given; all items arrive, in order; and the
/// marker of the last stream comes last.
pub proof fn law_one_marker_per_stream<Origin, T>(streams: Seq<Seq<T>>, origin: Origin)
    ensures
        markers(with_reconnection_events(streams, origin)) == streams.len(),
        items_of(with_reconnection_events(streams, origin)) == streams.flatten(),
        forall|i: int|
            0 <= i < with_reconnection_events(streams, origin).len() ==> (
            #[trigger] with_reconnection_events(streams, origin)[i] matches Event::Reconnecting(
                of,
            ) ==> of == origin),
        streams.len() > 0 ==> with_reconnection_events(streams, origin).len() > 0
            && with_reconnection_events(streams, origin).last() == Event::<Origin, T>::Reconnecting(
            origin,
        ),
    decreases streams.len(),
{
    if streams.len() > 0 {
        let rest = streams.drop_first();
        law_one_marker_per_stream(rest, origin);
        lemma_stream_events(streams.first(), origin);
        lemma_events_concat(
            stream_events(streams.first(), origin),
            with_reconnection_events(rest, origin),
        );
        let events = with_reconnection_events(streams, origin);
        let own = stream_events(streams.first(), origin);
        let others = with_reconnection_events(rest, origin);
        assert forall|i: int| 0 <= i < events.len() implies (
        #[trigger] events[i] matches Event::Reconnecting(of) ==> of == origin) by {
            if i >= own.len() {
                assert(events[i] == others[i - own.len()]);
            } else {
                assert(events[i] == own[i]);
            }
        }
        if rest.len() == 0 {
            assert(others =~= Seq::<Event<Origin, T>>::empty());
            assert(events =~= own);
        } else {
            assert(events.last() == others.last());
        }
    }
}

/// What is left of `events` once their errors have been handled.
pub open spec fn with_error_handler<Origin, T, E>(
    events: Seq<Event<Origin, Result<T, E>>>,
) -> Seq<Event<Origin, T>>
    decreases events.len(),
{
    if events.len() == 0 {
        Seq::empty()
    } else {
        let rest = with_error_handler(events.drop_first());
        match handled_spec(events.first()) {
            Some(event) => seq![event] + rest,
            None => rest,
        }
    }
}

/// Handling errors takes out the errors and nothing else: every marker stays,
/// and the items that are no errors stay, in order.
pub proof fn law_only_errors_are_handled<Origin, T, E>(events: Seq<Event<Origin, Result<T, E>>>)
    ensures
        markers(with_error_handler(events)) == markers(events),
        items_of(with_error_handler(events)) == successes(items_of(events)),
    decreases events.len(),
{
    if events.len() > 0 {
        let rest = events.drop_first();
        law_only_errors_are_handled(rest);
        let kept = with_error_handler(events);
        match events.first() {
            Event::Item(result) => {
                let results = items_of(events);
                assert(results.drop_first() =~= items_of(rest));
                assert(results.first() == result);
                if result is Ok {
                    assert(kept.drop_first() =~= with_error_handler(rest));
                }
            },
            Event::Reconnecting(_) => {
                assert(kept.drop_first() =~= with_error_handler(rest));
            },
        }
    }
}

/// An idle limit passes each item unchanged and ends a stream exactly where it
/// has elapsed.
pub proof fn law_timely_items_pass<T>(item: T)
    ensures
        within_idle_limit_spec(Ok::<T, Elapsed>(item)) == Some(item),
        within_idle_limit_spec(Err::<T, Elapsed>(Elapsed)) is None,
{
}

/// Termination passes each item and each recoverable error unchanged, and ends
/// a stream exactly at a terminal error.
pub proof fn law_survivable_results_pass<T, E>(item: T, error: E, terminal: bool)
    ensures
        unless_terminal_spec(Ok::<T, E>(item), terminal) == Some(Ok::<T, E>(item)),
        unless_terminal_spec(Err::<T, E>(error), false) == Some(Err::<T, E>(error)),
        unless_terminal_spec(Err::<T, E>(error), true) is None,
{
}

/// An error handler passes each marker and each item unchanged and takes out
/// each error.
pub proof fn law_handled_events_pass<Origin, T, E>(origin: Origin, item: T, error: E)
    ensures
        handled_spec(Event::<Origin, Result<T, E>>::Reconnecting(origin)) == Some(
            Event::<Origin, T>::Reconnecting(origin),
        ),
        handled_spec(Event::<Origin, Result<T, E>>::Item(Ok(item))) == Some(
            Event::<Origin, T>::Item(item),
        ),
        handled_spec(Event::<Origin, Result<T, E>>::Item(Err(error))) is None,
{
}

/// The events of a stream are its items, each at its place, and a marker.
pub proof fn law_stream_events_are_items_and_marker<Origin, T>(items: Seq<T>, origin: Origin)
    ensures
        stream_events(items, origin).len() == items.len() + 1,
        forall|i: int|
            0 <= i < items.len() ==> #[trigger] stream_events(items, origin)[i] == Event::<
                Origin,
                T,
            >::Item(items[i]),
        stream_events(items, origin)[items.len() as int] == Event::<Origin, T>::Reconnecting(
            origin,
        ),
{
}

} // verus!
