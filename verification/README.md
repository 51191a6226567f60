# keep-sse

A keep-alive gateway for streamed language-model replies. It passes requests on to one upstream
server. Requests that ask a language model for a streamed reply get an event stream in which a
comment (`:` and an empty line) is sent whenever nothing else was sent for a while, so that
neither the client nor a proxy in between gives up while the model is silent. Every other request
is passed on as it is.

## Layout

- `src/` is the library, verified with Verus.
  - `detect`, `dispatch`: which requests are streamed
  - `boundary`, `reading`: where events end in a stream, and what a client reads from it
  - `sse`: the first answer to a streamed request, and the bridge between upstream and client
  - `error_event`: the events that report a failure, for each of the four interfaces
  - `encoding`: content codings
  - `proxy`, `headers`: header fields on their way through, and the gateway's own replies
  - `config`, `server`, `pprof`: settings, the accept loop, and the sampler
  - `json`, `text`: what the others read and write texts with
- `app/` is the program around it: command line, sockets, timers, streams.
- `tests/` runs the library on given values.

## What is proved

- When the interval has passed, a heartbeat is sent exactly if the client's stream stands at an
  event boundary. What the client gets is the upstream's bytes with nothing but such heartbeats put
  in, and it reads the same events as without them (`sse::Relay`, `reading::adds_only_heartbeats`,
  `sse::heartbeats_are_invisible`).
- The events of an error are read by the client as just those events, and leave the stream at an
  event boundary (`error_event::error_is_read_back`, `error_event::error_ends_at_boundary`).
- A request takes the streamed path exactly when its method, path, query, declared length, head
  and decoded body ask for it, whichever way the body is read as JSON
  (`dispatch::streamed_path_condition`).
- After each chunk, and after each heartbeat whether sent or skipped, a full interval starts anew
  (`sse::Relay`).
- Fields that concern one connection are never passed on, and the others always are
  (`proxy::strip_hop_by_hop`).

What the outside crates do is trusted: each call stands in a small function whose contract says
what is relied on.

## Settings

| Argument | Variable | Default |
|---|---|---|
| `--listen` | `KEEP_SSE_LISTEN` | `0.0.0.0:8080` |
| `--upstream` | `KEEP_SSE_UPSTREAM` | required, `http://` only |
| `--heartbeat-interval` | `KEEP_SSE_HEARTBEAT_INTERVAL` | 60 seconds |
| `--connect-timeout` | `KEEP_SSE_CONNECT_TIMEOUT` | 10 seconds |
| `--shutdown-timeout` | `KEEP_SSE_SHUTDOWN_TIMEOUT` | 30 seconds |
| `--max-probe-body` | `KEEP_SSE_MAX_PROBE_BODY` | 33554432 bytes |

With `KEEP_SSE_PPROF=1` a sampler runs; each `SIGUSR1` then writes a flame graph and a profile to
`KEEP_SSE_PPROF_DIR` (`/tmp` by default).
