# ssh3

The decisions of an SSH3 server and of the session processes that it starts, written
in Rust and proved with Verus.

- `src/` is the library. `proto` holds what goes over the wire: the headers of channel
  streams, the messages, the credentials, and the channels that share one stream.
  `server` holds what the server does with it: who is let in, which conversation a
  stream belongs to, what a request on a channel leads to, and what is forwarded where.
- `src/outside.rs` holds the calls into other crates. Their contracts are the part that
  is trusted and not proved.
- `app/` is the program around the library: it opens the sockets, starts the processes
  and runs the loops, and asks the library what to do next.
- `tests/` runs the library on concrete values.

Where a decision takes several steps, the library has it as a function from a state and
an event to the next state and what to do. The program does it and reports what came of
it as the next event.
