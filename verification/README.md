# stasis

The logic of an idle manager for Wayland sessions, written in Verus: what to do when nobody uses the
machine, and when not to. Every function of the library carries a contract, and Verus proves that the
code meets it.

## Layout

- `src/config/`: plans of idle steps, profiles, and the reading of configuration files
- `src/manager/`: from an event and a state to the next state and the actions to take
- `src/services/`: what the watchers of apps, media, the bus, power and the compositor report
- `src/ipc/`: the commands of the control socket and their answers
- `src/migrate/`: bringing older configuration files into the current form
- `src/daemon.rs`: the loop body that ties the manager to the services and the control socket
- `src/cli.rs`, `src/host.rs`, `src/paths.rs`, `src/session.rs`: arguments, chassis and power,
  places of files, and the lock that keeps a second daemon out
- `src/text/`: operations on text, with the meaning that std gives them
- `tests/`: tests on concrete values
- `app/`: the program: argument parsing, files, sockets, the bus, the compositor

## How to read a contract

Data types have a model, a plain mathematical value that `@` gives. Contracts relate models. The
rules that hold across calls stand as public proof functions beside the code they speak of, for
instance in `src/manager/laws.rs`, `src/manager/timing.rs` and `src/config/select.rs`.

## What is trusted

Calls into other crates sit in small functions marked `#[verifier::external_body]`, whose doc
comments say what is believed of the call. They stand in `src/config/source.rs` and
`src/config/references.rs` (rune-cfg), `src/config/pattern.rs` (regex), `src/services/json.rs`
(serde_json), `src/ipc/clock.rs` (chrono), `src/text/strings.rs` and `src/text/chars.rs` (std).
