# ableton_link

The core of Link, the protocol that keeps tempo, beat and transport of applications on a local
network in step, written in Verus. What the functions return and change is stated in their
contracts and proved; what holds across functions is stated and proved in the `law_` functions.

- `src/discovery`: which messages are sent and heard, who is known and until when, which network
  interfaces changed.
- `src/link`: payload entries, measurement of other clocks, the choice of a session, and the
  session state that applications capture, edit and commit.
- `src/platform`: clocks that count microseconds, usable network interfaces.
- `app`: sockets, threads, clocks and locks around the library. It is ordinary Rust and is not
  verified.
- `tests`: the library run on concrete values.

Tempos and slopes are floating-point numbers and are held as their bit patterns. Samples of a
measurement are held in half microseconds. Beat arithmetic is handed in by the caller.

The library calls `chrono` for spans of time, `bincode` for integers in network byte order, and
`triple_buffer` for the hand-over of the client state. What it takes these to do is stated at
the functions that call them.
