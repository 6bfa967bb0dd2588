# sim2h

A relay for agents that meet in spaces, verified with Verus.

Agents connect to the server, join a space, and from then on exchange direct messages and
publish entries through it. The server tracks which aspects of which entries a space holds,
asks authors for what the space lacks, and has agents help each other out.

- `src/rules.rs`, `src/events.rs`: the rules, as functions on what the server knows.
- `src/server.rs`, `src/process.rs`: `Sim2h`, whose contracts speak of the rules.
- `src/cache.rs`, `src/keyed.rs`: spaces, lists of aspects, and the maps that hold them.
- `src/data_types.rs`, `src/wire_message.rs`, `src/connection_state.rs`, `src/effect.rs`,
  `src/error.rs`: messages, connections, effects and errors, each with a view.
- `src/invariants.rs`, `src/laws.rs`, `src/sync_laws.rs`: what every step keeps, and what holds
  of the server as a whole.
- `app/`: runs the server over a transport.

The server does no input or output. It takes in what the transport reports, and collects in its
outbox what is to be sent and logged. Two calls are trusted: the draw of a random number, with
which it chooses who helps an agent out, and the text that `format!` makes of a message.
