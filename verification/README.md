# handmade_async

An asynchronous runtime made by hand, in small steps: a future polled once, a
busy loop, an executor that polls every task in every round, wakers that unpark
a thread, a selector for non-blocking sockets, and at last an executor that runs
a TCP client beside a progress display.

- `src/` decides: executors, sleeps, the selector, the TCP futures and clients
  are state machines, verified with Verus. They do no I/O; each asks its driver
  for an action and is told what came of it. `parking`, `reactor`, `timer`
  and `spinner` model these machines together with the threads around them, and
  prove of every interleaving of the model that no wake-up and no registration
  is lost, that no sleep ends early and that frames lie a pause apart. The
  machines bind their own order by their phases; that a task writes its ping
  after it registers, and that a waker unparks the thread after it records the
  task, is up to `app/`.
- `app/` drives: it polls futures, parks threads, reads the clock and makes the
  system calls. `handmade_async final-demo` sends to `127.0.0.1:3333`.
- `tests/` runs the machines on concrete values.
