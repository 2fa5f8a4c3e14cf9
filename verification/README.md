# rust_study

A set of small Rust study programs whose logic is verified with Verus.

- `src/` is the verified library: a bank account whose balance never goes
  negative, a bounded FIFO ring buffer, a stoppable work queue, a counter and
  a computed-once cache, the scheduling state of a single-worker async
  runtime, the rules of a number-guessing game, a task board, a score board
  keyed by name, walks through `String`, `Vec` and `VecDeque`, directory
  statistics and a
  few small examples of `Option`, `Result`, ownership and generics.
- `app/` is the program that runs the demos: threads, locks, channels, file
  and network I/O, futures, floating-point shapes and printing.
- `tests/` exercises the library on concrete values.
