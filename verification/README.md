# ruduo

A small reactor: event loops on a pool of threads, TCP connections that are
dispatched over them, timers, and byte buffers.

- `src/` is the library. It holds everything that computes or decides, written in
  Verus and proved: buffers, the timer wheel, what an event loop does next, how a
  connection sends, reads and writes, what a dispatcher does about a message.
- `app/` is ordinary Rust around it: sockets, the poller (`mio`), threads, logging.
  It carries out what the library decides and reports back what came of it.
- `tests/` runs the library.

What is believed without proof is small and marked in the source: how `slab` hands
out keys (`src/slots.rs`), the queue of `crossbeam-channel` (`src/queue.rs`), the
system clock (`src/timer.rs`), lossy decoding of text (`src/buffer.rs`) and one error
number of `libc` (`src/readiness.rs`).
