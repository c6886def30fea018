# task_watchdog

Multiplexes many software task watchdogs onto one hardware watchdog.  Each
task is registered with the longest period it may go without feeding; a
periodic check feeds the hardware watchdog only while no task has starved, so
one stuck task lets the hardware reset the system.

- `src/` is the library, verified with Verus: the task registry in two forms
  (`map_watchdog`, any number of tasks in an ordered map; `slot_watchdog`, a
  fixed array of `N` slots), the starvation rule, the timeout arithmetic of
  the hardware drivers (`platform`), the run loop's schedule (`schedule`),
  and the laws that relate the operations (`laws`).  Time is in
  milliseconds.  The hardware watchdog is the user's; its trait states that
  each request it receives is appended to its `requests`, and the watchdogs
  state which requests they make.
- `app/` is the glue that cannot be verified: the hardware watchdogs of the
  RP2040, nRF and ESP32 families, their clocks, and the Embassy runners that
  share a watchdog between async tasks.
- `tests/` runs the library on concrete values.
