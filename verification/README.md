# barter-data

Reconnecting market data streams. `src/` holds their rules, verified with Verus:

- `streams::consumer`: what identifies a market stream, and how long it may stay
  silent before it is taken for dead;
- `streams::reconnect::stream`: the exponential backoff between failed attempts
  to connect, and what becomes of each item, error and silence;
- `streams::reconnect::event_loop`: the loop that keeps a stream connected, as a
  state machine from signals to commands and events;
- `streams::reconnect::backoff_laws`, `pipeline` and `loop_laws`: what holds of
  these over whole streams and any number of attempts.

`app/` runs them on tokio: it connects, sleeps, polls, logs and serialises.
