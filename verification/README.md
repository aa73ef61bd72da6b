# agy_acp

An adapter that speaks the Agent Client Protocol (JSON-RPC, one message in a line) on one
side and drives the `agy` command on the other. It keeps sessions, runs a prompt by starting
`agy`, reads the conversation that `agy` writes to a database, and streams what it finds to
the client.

The logic is a library that Verus proves; the program around it does the input and output.

- `src/adapter.rs`, `src/handlers.rs`: the sessions, and the requests about them.
- `src/dispatch.rs`, `src/rpc.rs`, `src/json.rs`: messages, and what is done with each.
- `src/prompt.rs`: what the agent is run with, and what its end is answered with.
- `src/stream.rs`, `src/response.rs`, `src/tools.rs`, `src/narration.rs`: from the steps of a
  conversation to updates and responses.
- `src/proto.rs`: the payloads of steps.
- `src/models.rs`, `src/paths.rs`: the models to select from, and where things stand.
- `src/table.rs`, `src/text.rs`: tables keyed by text, and text itself.
- `src/laws.rs`, `src/delivery.rs`, `src/encoding.rs`: what holds across functions.
- `app/`: files, the database, the `agy` process, and the main loop.
- `tests/`: the library from outside.

Where a function calls another crate, the call stands in a small function of its own whose
contract is not proved; its comment says what is claimed of the call.
