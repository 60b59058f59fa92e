# nomopractic

The core of a robot hardware daemon, verified with Verus: configuration, mixer
control, calibration, leases, and the decisions behind every request that a
client can make.

- `src/` is the library. Every function states in its contract what it returns
  or changes, and Verus proves it. Functions named `law_*` state what holds of
  several functions together.
  - `text`, `number`: text as sequences of characters; numbers by their bits.
  - `config`: defaults, files, environment variables, validation.
  - `calibration`: values that change while the daemon runs.
  - `hat`: mixer (`audio`), pins, leases, hardware errors.
  - `ipc`: requests and responses (`schema`, `params`), the state of the daemon
    (`state`), what a request comes to (`plan`, `handler`), operations on
    several motors (`motion`), what is answered once the hardware has done its
    part (`outcome`), and what holds of the daemon as a whole (`laws`).
- `app/` is ordinary Rust around it: files, processes, tasks, JSON.
- `tests/` runs the library.

A request is served in steps. `Handler::dispatch` answers it or names a job. The
job is done on the hardware, and a `finish_*` function takes the outcome, updates
the state and gives the response. Times are milliseconds since the start.
