# onelastleaf plugin SDK, verified core

The runtime of a onelastleaf process plugin, as a Verus library that decides and
a thin layer that acts.

`src/` is the library. It holds the protocol messages, the rules they obey, the
handshake, the life of a job, cooperative cancellation, host calls and the
transfer of artifacts. Wherever the outside world has a part in it, a function
takes a state and what happened and returns the next state and what to do about
it: `serve` for a session, `advance` for an artifact, `watch_descriptor` for the
parent. Verus proves the contract of every function but the wrappers in
`src/foreign.rs`, which hold what the library takes on trust from the crates
`uuid`, `http`, `sha2` and `prost-types` and from the standard library.

`app/` performs what the library decides: the gRPC stream, the tasks of the
actions, the output queue and the watch on standard input. The wire encoding is
handed to `Plugin::run` as a `tonic` codec of `PluginEnvelope`.

`tests/` runs the library on concrete sessions, jobs, values and artifacts.

## How a session goes

1. `session::Handshake::begin` answers the greeting of the host, and `confirm`
   makes both sides ready.
2. `session::serve` reacts to every envelope and to the end of every action:
   messages to send, a response to deliver, a job to start or to stop.
3. Actions use `host::ActionContext`, which checks what they ask for before it is
   sent and what the host answers before they see it. An artifact is stored by
   `store_artifact` and `advance`, which read its source, compare it with its
   declaration and only then transfer it.
4. `sender::SessionSender` numbers whatever enters the ordered output.
5. `session::time_to_close` and `session::wait_for_host_close` end a session that
   was shut down.

The laws that hold across these steps are the public proof functions whose names
begin with `law_`.
