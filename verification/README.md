# srtla_send

A sender for SRTLA: it takes an SRT stream on a local port and spreads it over
several uplinks, each bound to a local address, to an SRTLA receiver.

- `src/` is the core, written in Verus and free of I/O: the protocol, the state of
  each link, registration, the choice of a link for every packet, housekeeping, and
  the control requests and figures. Its functions state what they do, and Verus
  proves it. Not proved but trusted are the short wrappers round outside calls, on
  inline vectors, hash maps, random numbers and the wall clock: each says in its
  comment what is taken for granted. Times and measurements come in as arguments.
- `app/` is the program around it: arguments, sockets, timers, files, and the
  filters and scores that are computed in floating point.
- `tests/` runs the core on concrete values.

`src/sender/driver.rs` is the place to start reading: it holds the state of a
running sender and one method for each event of the program's loop. Scores that are
computed in floating point enter the core as `OrderKey`, an integer that orders as
the number does.
