# pyo3_gevent

Runs Rust futures and threads on behalf of gevent greenlets and hands their
outcomes back to the gevent hub.

- `src/` is the verified library (Verus): decimal formatting of sums and job
  messages (`formatting`), the registry of named timings (`timing`), how an
  outcome is handed to an `AsyncResult`, `Waiter`, greenlet or `ThreadResult`
  (`delivery`), and the lifecycle of a `ThreadResult` shared by a sender and a
  receiver (`lifecycle`).
- `app/` is the Python-facing side built on pyo3 and tokio: the gevent objects,
  the runtime, and the extension modules. It performs the calls into Python
  that the library decides on.
- `tests/` exercises the library on concrete values.
