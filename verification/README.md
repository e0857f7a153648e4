# wring

Completion-based file I/O on Linux `io_uring`, with its decisions verified
by Verus.

- `src/` is the verified library:
  - `complete`: the table of requests in flight, keyed by the token each
    request is submitted with; how completions reach their requests; the
    state machine of one request from submission to result.
  - `driver`: the bookkeeping of one ring (requests in flight, buffer
    registration) and one turn of the ring.
  - `error`: the library's errors and how a completion's result code
    becomes a result.
  - `io`: the buffer traits, descriptors, the requests that read and
    write, and the pool of registered buffers (a `crossbeam` queue of free
    indices).
  - `fs`: NUL-terminated paths and the requests that open, rename, make,
    remove and link files.
  - `op`: the requests themselves, as values.
- `app/` is the asynchronous side: the `io_uring` ring and its system
  calls, the futures and wakers, the background thread, and the raw
  pointers that the kernel reads and fills.
- `tests/` runs the library on concrete values.
