# pollnet

A polling-based networking library with a C interface (WebSocket, TCP and
simple HTTP clients and servers), meant to be driven once per frame from an
embedded scripting environment. The host polls each socket by handle; a
tokio reactor thread does the network work.

## Layout

- `src/` is the verified library:
  - `handle.rs`: socket handles and their canonical 64-bit form;
  - `table.rs`: the socket table (a `slotmap::HopSlotMap`) behind trusted wrappers;
  - `socket.rs`, `context.rs`: socket states and the poll state machine
    (`update`, `close`, `close_all`, forwarding of sends);
  - `api.rs`: the table queries behind the C interface (status, data, clients, ids);
  - `headers.rs`, `http.rs`: header text, header validation, status codes,
    and the messages of HTTP requests and replies;
  - `header_map.rs`: the `http` crate's `HeaderMap` behind trusted wrappers,
    modelled as a map from lower-case names to values;
  - `paths.rs`, `vfiles.rs`: mapping request paths onto a directory, read
    as the build target reads paths (Unix or Windows), and files served
    from memory;
  - `reactor.rs`: what each reactor task does with what it receives;
  - `address.rs`, `ids.rs`, `channel.rs`, `text.rs`: URL parsing, random
    ids, channel errors, character helpers;
  - `laws.rs`: properties that span several operations.
- `app/` is the unverified shell: the `extern "C"` functions, the reactor
  thread, channels and network I/O.
- `tests/` exercises the library on concrete values.
