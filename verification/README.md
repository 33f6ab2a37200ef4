# swr

A stale-while-revalidate cache: it serves what it has, even when stale, and
refreshes it in the background. All rules live in a pure, synchronous state
machine whose behaviour is stated in contracts and proved with Verus.

## Layout

- `src/machine/` is the machine. `model.rs` holds the transition tables of one
  entry, `table.rs` the step of the whole machine, both as mathematical models.
  `entry.rs` and `inner.rs` are the code, proved against them; `Inner::handle` is
  the sole entry point. `laws/` proves what follows: which events reach which
  entries, how fetches, writes and mutations interfere, what readers get, who
  hears a notification, when entries go.
- `src/client.rs` and `src/handle.rs` are the steps of the client between two
  waits: what an effect asks the host to run, how a reader goes on waiting, how a
  mutation ends exactly once.
- `src/key.rs`, `src/options.rs`, `src/snapshot.rs`, `src/time.rs`, `src/error.rs`
  are the values that go in and out. `src/channel.rs` wraps tokio's watch channel.
- `src/retry.rs` is the backoff schedule of retrying fetches, `src/registry.rs`
  the bookkeeping of shared environment listeners.
- `app/` is the async shell: the client, the tokio and browser runtimes, the HTTP
  fetchers, the GPUI adapter.
- `tests/` drives the machine event by event, and whole stories on a host with a
  manual clock.

## Using the machine

Feed events to `Inner::handle` under a lock, with the current point on the host's
clock. Carry out the returned effects in order, outside the lock, with
`client::perform`: it publishes notifications and hands back fetches and timers to
spawn. Their results come back as events.
