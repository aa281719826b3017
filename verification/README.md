# astro-relay

A signalling relay for peer-to-peer chat. It keeps track of who is online and who
is in which channel, passes chat text to everyone in a channel and signalling
payloads to the peer they name, and forgets each message as soon as it is
forwarded. It also hosts update files, which whoever has the upload token can
publish.

- `src/` is the library, verified with Verus. `model.rs` is the relay as a state
  machine, `relay.rs` runs it, `laws.rs` states what holds of it. `publish.rs`
  decides who may publish a file and under which name, `config.rs` reads the
  settings. `collections.rs` and a few functions elsewhere stand for the outside
  crates, with what is taken on trust of them.
- `app/` is the server around it: sockets, JSON, files and environment.
- `tests/` runs the library on concrete values.
