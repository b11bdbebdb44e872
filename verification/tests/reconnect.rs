use barter_data::exchange::ExchangeId;
use barter_data::streams::consumer::stream_reconnection_policy;
use barter_data::streams::reconnect::event_loop::{
    received, Command, Received, ReconnectLoop, Signal, Step,
};
use barter_data::streams::reconnect::stream::{
    handle_error, unless_terminal, within_idle_limit, Attempt, Elapsed, ReconnectionBackoffPolicy,
    ReconnectionState,
};
use barter_data::streams::reconnect::Event;
use std::cell::RefCell;
use std::time::Duration;

type Polled = Result<Result<u32, String>, Elapsed>;
type Shown = Event<ExchangeId, Result<u32, String>>;

const ORIGIN: ExchangeId = ExchangeId::BinanceSpot;

fn is_fatal(error: &String) -> bool {
    error.starts_with("fatal")
}

fn item(value: u32) -> Polled {
    Ok(Ok(value))
}

fn failure(text: &str) -> Polled {
    Ok(Err(text.to_string()))
}

fn silence() -> Polled {
    Err(Elapsed)
}

/// Runs a loop over attempts to initialise streams, each with what its stream
/// delivers, until they are used up. Gives what the consumer saw and the sleeps.
fn drive(
    policy: ReconnectionBackoffPolicy,
    idle_max: Option<Duration>,
    initial: Vec<Polled>,
    attempts: Vec<Option<Vec<Polled>>>,
) -> (Vec<Shown>, Vec<Duration>) {
    let started = ReconnectLoop::start(Ok::<_, ()>(initial), policy, idle_max, ORIGIN);
    let (mut state, stream) = started.unwrap();
    let mut stream = stream.into_iter();
    let mut attempts = attempts.into_iter();
    let mut shown = Vec::new();
    let mut sleeps = Vec::new();
    loop {
        let signal = match state.command() {
            Command::Initialise => match attempts.next() {
                None => return (shown, sleeps),
                Some(None) => Signal::InitialiseFailed,
                Some(Some(items)) => {
                    stream = items.into_iter();
                    Signal::Initialised
                }
            },
            Command::Sleep(sleep) => {
                sleeps.push(sleep);
                Signal::Slept
            }
            Command::Receive { idle_max: limit } => {
                assert_eq!(limit, idle_max);
                Signal::Received(received(stream.next(), is_fatal))
            }
        };
        shown.extend(state.advance(signal));
    }
}

fn items(shown: &[Shown]) -> Vec<u32> {
    shown
        .iter()
        .filter_map(|event| match event {
            Event::Item(Ok(value)) => Some(*value),
            _ => None,
        })
        .collect()
}

#[test]
fn idle_timeout_ends_a_silent_inner_stream() {
    let (shown, _) = drive(
        stream_reconnection_policy(),
        Some(Duration::from_secs(300)),
        vec![silence()],
        vec![],
    );
    assert!(items(&shown).is_empty());
}

#[test]
fn idle_timeout_preserves_items_and_type() {
    let (shown, _) = drive(
        stream_reconnection_policy(),
        Some(Duration::from_secs(300)),
        vec![item(1), item(2), item(3), silence()],
        vec![],
    );
    assert_eq!(items(&shown), vec![1, 2, 3]);
}

#[test]
fn idle_timeout_none_passes_through_and_completes() {
    let (shown, _) = drive(stream_reconnection_policy(), None, vec![item(7), item(8)], vec![]);
    assert_eq!(items(&shown), vec![7, 8]);
}

#[test]
fn ended_inner_stream_produces_reconnecting_marker_downstream() {
    let (shown, _) = drive(
        stream_reconnection_policy(),
        Some(Duration::from_secs(300)),
        vec![silence()],
        vec![],
    );
    assert!(matches!(shown.as_slice(), [Event::Reconnecting(ExchangeId::BinanceSpot)]));
}

#[test]
fn nothing_is_delivered_after_the_limit_elapsed() {
    let (shown, _) = drive(
        stream_reconnection_policy(),
        Some(Duration::from_secs(300)),
        vec![item(1), silence(), item(2), failure("late")],
        vec![Some(vec![item(3)])],
    );
    assert_eq!(
        shown,
        vec![
            Event::Item(Ok(1)),
            Event::Reconnecting(ORIGIN),
            Event::Item(Ok(3)),
            Event::Reconnecting(ORIGIN),
        ]
    );
}

#[test]
fn terminal_errors_end_a_stream_and_others_pass() {
    let (shown, _) = drive(
        stream_reconnection_policy(),
        None,
        vec![item(1), failure("gap"), item(2), failure("fatal"), item(9)],
        vec![Some(vec![])],
    );
    assert_eq!(
        shown,
        vec![
            Event::Item(Ok(1)),
            Event::Item(Err("gap".to_string())),
            Event::Item(Ok(2)),
            Event::Reconnecting(ORIGIN),
            Event::Reconnecting(ORIGIN),
        ]
    );
}

#[test]
fn sleeps_grow_with_failures_and_start_over_after_a_success() {
    let (shown, sleeps) = drive(
        ReconnectionBackoffPolicy::new(100, 3, 1000),
        None,
        vec![],
        vec![
            None,
            None,
            None,
            None,
            Some(vec![item(5)]),
            None,
            Some(vec![]),
        ],
    );
    let millis: Vec<u128> = sleeps.iter().map(|sleep| sleep.as_millis()).collect();
    assert_eq!(millis, vec![100, 300, 900, 1000, 100]);
    assert_eq!(
        shown,
        vec![
            Event::Reconnecting(ORIGIN),
            Event::Item(Ok(5)),
            Event::Reconnecting(ORIGIN),
            Event::Reconnecting(ORIGIN),
        ]
    );
}

#[test]
fn a_failed_first_attempt_is_handed_back() {
    let started = ReconnectLoop::start(
        Err::<(), _>("refused"),
        stream_reconnection_policy(),
        None,
        ORIGIN,
    );
    assert!(matches!(started, Err("refused")));
}

#[test]
fn a_started_loop_receives() {
    let started = ReconnectLoop::start(
        Ok::<_, ()>("stream"),
        ReconnectionBackoffPolicy::new(7, 2, 9),
        None,
        ORIGIN,
    );
    let (state, stream) = started.unwrap();
    assert_eq!(stream, "stream");
    assert_eq!(state.step, Step::Receive);
    assert_eq!(state.backoff.backoff_ms_current, 7);
    assert_eq!(state.command(), Command::Receive { idle_max: None });
}

#[test]
fn polls_are_sorted_out() {
    assert_eq!(received(None, is_fatal), Received::<u32, String>::Ended);
    assert_eq!(received(Some(silence()), is_fatal), Received::Idle);
    assert_eq!(received(Some(item(4)), is_fatal), Received::Item(4));
    assert_eq!(
        received(Some(failure("gap")), is_fatal),
        Received::Error { error: "gap".to_string(), terminal: false }
    );
    assert_eq!(
        received(Some(failure("fatal gap")), is_fatal),
        Received::Error { error: "fatal gap".to_string(), terminal: true }
    );
}

#[test]
fn backoff_is_multiplied_and_capped() {
    let mut state = ReconnectionState::from(stream_reconnection_policy());
    let mut seen = Vec::new();
    for _ in 0..11 {
        seen.push(state.backoff_ms_current);
        state.multiply_backoff();
    }
    assert_eq!(
        seen,
        vec![125, 250, 500, 1000, 2000, 4000, 8000, 16000, 32000, 60000, 60000]
    );
    state.reset_backoff();
    assert_eq!(state.backoff_ms_current, 125);
    assert_eq!(state.generate_sleep_duration(), Duration::from_millis(125));
}

#[test]
fn an_initial_backoff_above_the_maximum_is_cut_off() {
    let mut state = ReconnectionState::from(ReconnectionBackoffPolicy::new(90, 1, 40));
    assert_eq!(state.backoff_ms_current, 90);
    assert_eq!(state.sleep_ms(), 40);
    assert_eq!(state.generate_sleep_duration().as_millis(), 40);
    state.multiply_backoff();
    assert_eq!(state.generate_sleep_duration().as_millis(), 40);
    state.reset_backoff();
    assert_eq!(
        state.after_attempt(Err::<u8, _>("refused")),
        Attempt::Retry { sleep: Duration::from_millis(40) }
    );
    let (_, sleeps) =
        drive(ReconnectionBackoffPolicy::new(90, 1, 40), None, vec![], vec![None, None]);
    assert_eq!(sleeps, vec![Duration::from_millis(40), Duration::from_millis(40)]);
}

#[test]
fn a_multiplier_of_zero_leaves_no_backoff() {
    let mut state = ReconnectionState::from(ReconnectionBackoffPolicy::new(90, 0, 400));
    state.multiply_backoff();
    assert_eq!(state.backoff_ms_current, 0);
}

#[test]
fn the_largest_backoffs_that_fit_are_multiplied() {
    let mut state = ReconnectionState::from(ReconnectionBackoffPolicy::new(u64::MAX, 1, u64::MAX));
    state.multiply_backoff();
    assert_eq!(state.backoff_ms_current, u64::MAX);
    let mut state =
        ReconnectionState::from(ReconnectionBackoffPolicy::new(u64::MAX / 255, 255, u64::MAX - 1));
    state.multiply_backoff();
    assert_eq!(state.backoff_ms_current, u64::MAX - 1);
}

#[test]
fn a_backoff_fits_while_its_product_does() {
    let fits = |initial: u64, multiplier: u8| {
        ReconnectionState::from(ReconnectionBackoffPolicy::new(initial, multiplier, 1))
            .backoff_fits_u64()
    };
    assert!(fits(0, 255));
    assert!(fits(u64::MAX, 1));
    assert!(fits(u64::MAX, 0));
    assert!(fits(u64::MAX / 255, 255));
    assert!(!fits(u64::MAX / 255 + 1, 255));
    assert!(!fits(u64::MAX, 2));
}

#[test]
fn attempts_are_made_one_at_a_time_and_on_demand() {
    let policy = ReconnectionBackoffPolicy::new(1, 2, 8);
    let started = ReconnectLoop::start(Ok::<_, ()>(()), policy, None, ORIGIN);
    let (mut state, ()) = started.unwrap();
    let script: Vec<Signal<u32, String>> = vec![
        Signal::Received(Received::Item(1)),
        Signal::Received(Received::Ended),
        Signal::InitialiseFailed,
        Signal::Slept,
        Signal::InitialiseFailed,
        Signal::Slept,
        Signal::Initialised,
        Signal::Received(Received::Item(2)),
    ];
    let mut commands = Vec::new();
    for signal in script {
        commands.push(state.command());
        state.advance(signal);
    }
    let attempts = commands.iter().filter(|command| **command == Command::Initialise).count();
    assert_eq!(attempts, 3);
    assert_eq!(
        commands,
        vec![
            Command::Receive { idle_max: None },
            Command::Receive { idle_max: None },
            Command::Initialise,
            Command::Sleep(Duration::from_millis(1)),
            Command::Initialise,
            Command::Sleep(Duration::from_millis(2)),
            Command::Initialise,
            Command::Receive { idle_max: None },
        ]
    );
}

#[test]
fn attempts_settle_the_backoff() {
    let mut state = ReconnectionState::from(ReconnectionBackoffPolicy::new(10, 4, 100));
    let retry = |ms: u64| Attempt::Retry { sleep: Duration::from_millis(ms) };
    assert_eq!(state.after_attempt(Err::<u8, _>("refused")), retry(10));
    assert_eq!(state.after_attempt(Err::<u8, _>("refused")), retry(40));
    assert_eq!(state.after_attempt(Err::<u8, _>("refused")), retry(100));
    assert_eq!(state.after_attempt(Ok::<u8, &str>(3)), Attempt::Ready(3));
    assert_eq!(state.after_attempt(Err::<u8, _>("refused")), retry(10));
    assert_eq!(state.backoff_ms_current, 40);
    assert_eq!(state.policy, ReconnectionBackoffPolicy::new(10, 4, 100));
}

#[test]
fn policies_and_states_are_cloned_whole() {
    let policy = ReconnectionBackoffPolicy::new(1, 2, 3);
    assert_eq!(policy.clone(), policy);
    let mut state = ReconnectionState::from(policy);
    state.multiply_backoff();
    assert_eq!(state.clone(), state);
}

#[test]
fn single_items_pass_or_end_a_stream() {
    assert_eq!(within_idle_limit(Ok(5)), Some(5));
    assert_eq!(within_idle_limit::<u8>(Err(Elapsed)), None);
    let fatal = |error: &u8| *error > 9;
    assert_eq!(unless_terminal(Ok::<&str, u8>("item"), fatal), Some(Ok("item")));
    assert_eq!(unless_terminal(Err::<&str, u8>(9), fatal), Some(Err(9)));
    assert_eq!(unless_terminal(Err::<&str, u8>(10), fatal), None);
}

#[test]
fn errors_are_handled_and_dropped() {
    let seen = RefCell::new(Vec::new());
    let op = |error: &'static str| seen.borrow_mut().push(error);
    let events = vec![
        Event::Item(Ok(1)),
        Event::Item(Err("gap")),
        Event::Reconnecting(ORIGIN),
        Event::Item(Err("fatal")),
        Event::Item(Ok(2)),
    ];
    let kept: Vec<Event<ExchangeId, i32>> =
        events.into_iter().filter_map(|event| handle_error(event, &op)).collect();
    assert_eq!(
        kept,
        vec![Event::Item(1), Event::Reconnecting(ORIGIN), Event::Item(2)]
    );
    assert_eq!(*seen.borrow(), vec!["gap", "fatal"]);
}
