# Constellation

Constellation joins the computers of one owner into a cluster for private AI work: a controller that
plans and leases workloads, workers that carry them out, and a command line.

- `src/` is the library. It holds the decisions: the controller's tables and their transactions, worker
  leases and controller fencing, cloud budgets, enrollment, authentication, the API's rules, workflows,
  streams, the worker's and the command line's steps, restoring and rotating files. Every function states
  what it returns, and Verus proves it. Properties of several operations are proof functions named
  `law_*`.
- `tests/` runs the library on concrete values.
- `app/` is ordinary Rust around it: sockets, files, the database, the process.

The library keeps moments as nanoseconds since the Unix epoch, identifiers as 128-bit numbers, and
floating-point measurements as their bit patterns. Calls that need the outside world return what is to be
asked for, and take the answer as an argument.
